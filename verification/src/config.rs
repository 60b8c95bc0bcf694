//! Runtime settings: the IMAP accounts, the look-back window, the poll
//! interval, the reminder hour and lead, the selected banks and the cards
//! hidden from the dashboard. They are stored as text key/value pairs; these
//! functions read them with their defaults and write them back.

use vstd::prelude::*;
use crate::banks::opt_string_view;
use crate::text::{
    chars_of, int_string, int_text, join_strings, join_with, parse_i64, parse_i64_spec, parse_u16,
    parse_u16_spec, parse_u32, parse_u32_spec, parse_u64, parse_u64_spec, push_str, same_chars,
    same_text, split_by, split_on, string_of, trim_chars, trim_ws, views_of,
    lemma_parse_int_text, lemma_split_by_join,
};

verus! {

/// One IMAP account (non-secret part; the password lives in the OS keychain,
/// keyed by `user`). Stored as a JSON array under the `accounts` settings key.
#[derive(Debug, Clone)]
pub struct ImapAccount {
    pub host: String,
    pub port: u16,
    pub user: String,
    pub mailbox: String,
}

/// What the `accounts` setting held.
#[derive(Debug)]
pub enum StoredAccounts {
    /// The key was never written.
    Absent,
    /// The key holds text that does not read as an account list.
    Unreadable,
    /// The key holds this account list (possibly empty).
    Parsed(Vec<ImapAccount>),
}

/// Non-secret runtime settings, persisted in the store's settings table.
#[derive(Debug)]
pub struct Config {
    pub accounts: Vec<ImapAccount>,
    pub lookback_days: i64,
    pub poll_interval_min: u64,
    pub reminder_hour: u32,
    /// How many days before the due date to fire the reminder (0 = on the due day).
    pub reminder_days_before: i64,
    /// Selected bank names; empty means "all built-in banks".
    pub selected_banks: Vec<String>,
    /// Card keys (`bank|last4`) hidden from the dashboard and reminders.
    /// An opt-out list, so newly discovered cards default to enabled.
    pub disabled_cards: Vec<String>,
    /// Start the app automatically on login. Defaults on.
    pub launch_at_login: bool,
}

// ---------------------------------------------------------------------------
// Settings lookup
// ---------------------------------------------------------------------------

pub open spec fn settings_view(s: Seq<(String, String)>) -> Seq<(Seq<char>, Seq<char>)> {
    s.map_values(|p: (String, String)| (p.0@, p.1@))
}

/// The value stored under `key`: the first pair with that key.
pub open spec fn setting(s: Seq<(Seq<char>, Seq<char>)>, key: Seq<char>) -> Option<Seq<char>>
    decreases s.len(),
{
    if s.len() == 0 {
        None
    } else if s[0].0 == key {
        Some(s[0].1)
    } else {
        setting(s.drop_first(), key)
    }
}

/// The value stored under `key`, or `default`.
pub open spec fn setting_or(s: Seq<(Seq<char>, Seq<char>)>, key: Seq<char>, default: Seq<char>) -> Seq<char> {
    match setting(s, key) {
        Some(v) => v,
        None => default,
    }
}

/// The value stored under `key`, if any.
pub fn get_setting(settings: &Vec<(String, String)>, key: &str) -> (r: Option<String>)
    ensures
        opt_string_view(r) == setting(settings_view(settings@), key@),
{
    let k = chars_of(key);
    let ghost all = settings_view(settings@);
    let mut i: usize = 0;
    assert(all.skip(0) =~= all);
    while i < settings.len()
        invariant
            i <= settings.len(),
            k@ == key@,
            all == settings_view(settings@),
            setting(all, key@) == setting(all.skip(i as int), key@),
        decreases settings.len() - i,
    {
        let ghost rest = all.skip(i as int);
        assert(rest[0] == all[i as int]);
        assert(all[i as int] == (settings@[i as int].0@, settings@[i as int].1@));
        let name = chars_of(settings[i].0.as_str());
        if same_chars(name.as_slice(), k.as_slice()) {
            assert(setting(rest, key@) == Some(rest[0].1));
            return Some(settings[i].1.clone());
        }
        assert(setting(rest, key@) == setting(rest.drop_first(), key@));
        assert(rest.drop_first() =~= all.skip(i + 1));
        i = i + 1;
    }
    None
}

/// The value stored under `key`, or `default`.
pub fn get_or(settings: &Vec<(String, String)>, key: &str, default: &str) -> (r: String)
    ensures
        r@ == setting_or(settings_view(settings@), key@, default@),
{
    match get_setting(settings, key) {
        Some(v) => v,
        None => {
            let d = chars_of(default);
            string_of(d.as_slice())
        },
    }
}

// ---------------------------------------------------------------------------
// Reading the configuration
// ---------------------------------------------------------------------------

/// The comma-separated names of a list setting, trimmed, empty ones dropped.
pub open spec fn name_list(s: Seq<char>) -> Seq<Seq<char>> {
    split_by(s, ',').map_values(|p: Seq<char>| trim_ws(p)).filter(|p: Seq<char>| p.len() > 0)
}

/// The names of a comma-separated list setting.
pub fn parse_name_list(s: &str) -> (r: Vec<String>)
    ensures
        views_of(r@) == name_list(s@),
{
    let cs = chars_of(s);
    let parts = split_on(cs.as_slice(), ',');
    let ghost pieces = split_by(s@, ',');
    let ghost trimmed = pieces.map_values(|p: Seq<char>| trim_ws(p));
    let ghost keep = |p: Seq<char>| p.len() > 0;
    let mut r: Vec<String> = Vec::new();
    let mut i: usize = 0;
    assert(trimmed.take(0).filter(keep) =~= Seq::<Seq<char>>::empty()) by {
        reveal_with_fuel(Seq::filter, 1);
    }
    while i < parts.len()
        invariant
            i <= parts.len(),
            parts@.len() == pieces.len(),
            forall|j: int| 0 <= j < parts@.len() ==> #[trigger] parts@[j]@ == pieces[j],
            trimmed == pieces.map_values(|p: Seq<char>| trim_ws(p)),
            keep == (|p: Seq<char>| p.len() > 0),
            views_of(r@) == trimmed.take(i as int).filter(keep),
        decreases parts.len() - i,
    {
        let t = trim_chars(parts[i].as_slice());
        proof {
            assert(trimmed.take(i + 1) =~= trimmed.take(i as int).push(trimmed[i as int]));
            trimmed.take(i as int).lemma_filter_push(trimmed[i as int], keep);
        }
        if t.len() > 0 {
            let ghost before = r@;
            r.push(string_of(t.as_slice()));
            assert(views_of(r@) =~= views_of(before).push(t@));
        }
        i = i + 1;
    }
    assert(trimmed.take(parts.len() as int) =~= trimmed);
    r
}

/// How the account list is read: a stored list is the truth (an unreadable
/// one counts as empty); only when the key was never written does a legacy
/// single account come from the `imap_*` keys, if `imap_user` is set.
pub open spec fn accounts_spec(settings: Seq<(Seq<char>, Seq<char>)>, stored: StoredAccounts) -> Seq<(Seq<char>, int, Seq<char>, Seq<char>)> {
    match stored {
        StoredAccounts::Parsed(v) => v@.map_values(|a: ImapAccount| (a.host@, a.port as int, a.user@, a.mailbox@)),
        StoredAccounts::Unreadable => Seq::empty(),
        StoredAccounts::Absent => {
            let user = setting_or(settings, "imap_user"@, ""@);
            if user.len() == 0 {
                Seq::empty()
            } else {
                seq![(
                    setting_or(settings, "imap_host"@, "imap.gmail.com"@),
                    match parse_u16_spec(setting_or(settings, "imap_port"@, "993"@)) { Some(p) => p, None => 993 },
                    user,
                    setting_or(settings, "imap_mailbox"@, "INBOX"@),
                )]
            }
        },
    }
}

pub open spec fn accounts_view(v: Seq<ImapAccount>) -> Seq<(Seq<char>, int, Seq<char>, Seq<char>)> {
    v.map_values(|a: ImapAccount| (a.host@, a.port as int, a.user@, a.mailbox@))
}

fn load_accounts(settings: &Vec<(String, String)>, stored: StoredAccounts) -> (r: Vec<ImapAccount>)
    ensures
        accounts_view(r@) == accounts_spec(settings_view(settings@), stored),
{
    match stored {
        StoredAccounts::Parsed(v) => v,
        StoredAccounts::Unreadable => Vec::new(),
        StoredAccounts::Absent => {
            let user = get_or(settings, "imap_user", "");
            if chars_of(user.as_str()).len() == 0 {
                return Vec::new();
            }
            let host = get_or(settings, "imap_host", "imap.gmail.com");
            let port_text = get_or(settings, "imap_port", "993");
            let port = match parse_u16(chars_of(port_text.as_str()).as_slice()) {
                Some(p) => p,
                None => 993,
            };
            let mailbox = get_or(settings, "imap_mailbox", "INBOX");
            let mut v: Vec<ImapAccount> = Vec::new();
            v.push(ImapAccount { host, port, user, mailbox });
            assert(accounts_view(v@) =~= accounts_spec(settings_view(settings@), stored));
            v
        },
    }
}

/// An integer setting: the stored text read as the type's integer, or the
/// default when absent or unreadable.
pub open spec fn int_setting(v: Option<int>, default: int) -> int {
    match v {
        Some(n) => n,
        None => default,
    }
}

/// What `Config::from_settings` reads.
pub open spec fn config_spec(settings: Seq<(Seq<char>, Seq<char>)>, stored: StoredAccounts, disabled: Option<Seq<String>>, c: Config) -> bool {
    &&& accounts_view(c.accounts@) == accounts_spec(settings, stored)
    &&& c.lookback_days == int_setting(parse_i64_spec(setting_or(settings, "lookback_days"@, "45"@)), 45)
    &&& c.poll_interval_min == int_setting(parse_u64_spec(setting_or(settings, "poll_interval_min"@, "15"@)), 15)
    &&& c.reminder_hour == int_setting(parse_u32_spec(setting_or(settings, "reminder_hour"@, "9"@)), 9)
    &&& c.reminder_days_before == int_setting(parse_i64_spec(setting_or(settings, "reminder_days_before"@, "3"@)), 3)
    &&& views_of(c.selected_banks@) == name_list(setting_or(settings, "selected_banks"@, ""@))
    &&& c.disabled_cards@ == match disabled { Some(d) => d, None => Seq::empty() }
    &&& c.launch_at_login == (setting_or(settings, "launch_at_login"@, "true"@) != "false"@)
}

impl Config {
    /// The configuration from the stored settings (`settings`: every stored
    /// key and value), the stored account list as read from the `accounts`
    /// key, and the disabled-card list as read from the `disabled_cards` key
    /// (`None` when absent or unreadable). Defaults: look back 45 days, poll
    /// every 15 minutes, remind from 9 o'clock, 3 days ahead, all banks,
    /// launch at login.
    pub fn from_settings(settings: &Vec<(String, String)>, stored: StoredAccounts, disabled: Option<Vec<String>>) -> (c: Config)
        ensures
            config_spec(settings_view(settings@), stored, match disabled { Some(d) => Some(d@), None => None }, c),
    {
        let accounts = load_accounts(settings, stored);
        let lb = get_or(settings, "lookback_days", "45");
        let pi = get_or(settings, "poll_interval_min", "15");
        let rh = get_or(settings, "reminder_hour", "9");
        let rd = get_or(settings, "reminder_days_before", "3");
        let sel = get_or(settings, "selected_banks", "");
        let launch = get_or(settings, "launch_at_login", "true");
        Config {
            accounts,
            lookback_days: match parse_i64(chars_of(lb.as_str()).as_slice()) { Some(v) => v, None => 45 },
            poll_interval_min: match parse_u64(chars_of(pi.as_str()).as_slice()) { Some(v) => v, None => 15 },
            reminder_hour: match parse_u32(chars_of(rh.as_str()).as_slice()) { Some(v) => v, None => 9 },
            reminder_days_before: match parse_i64(chars_of(rd.as_str()).as_slice()) { Some(v) => v, None => 3 },
            selected_banks: parse_name_list(sel.as_str()),
            disabled_cards: match disabled { Some(d) => d, None => Vec::new() },
            launch_at_login: !same_text(launch.as_str(), "false"),
        }
    }

    pub fn is_configured(&self) -> (r: bool)
        ensures
            r == (self.accounts@.len() > 0),
    {
        self.accounts.len() > 0
    }

    /// `"{bank}|{last4}"`, `last4` empty when unknown.
    pub fn card_key(bank: &str, last4: Option<&str>) -> (r: String)
        ensures
            r@ == card_key_text(bank@, crate::matcher::opt_str_view(last4)),
    {
        let mut out: Vec<char> = Vec::new();
        push_str(&mut out, bank);
        out.push('|');
        match last4 {
            Some(l) => push_str(&mut out, l),
            None => {},
        }
        assert(out@ =~= card_key_text(bank@, crate::matcher::opt_str_view(last4)));
        string_of(out.as_slice())
    }

    /// A card is shown and reminded unless its key is in the disabled list.
    pub fn is_card_enabled(&self, bank: &str, last4: Option<&str>) -> (r: bool)
        ensures
            r == !views_of(self.disabled_cards@).contains(card_key_text(bank@, crate::matcher::opt_str_view(last4))),
    {
        let key = Config::card_key(bank, last4);
        let mut i: usize = 0;
        while i < self.disabled_cards.len()
            invariant
                i <= self.disabled_cards.len(),
                key@ == card_key_text(bank@, crate::matcher::opt_str_view(last4)),
                forall|j: int| 0 <= j < i ==> #[trigger] self.disabled_cards@[j]@ != key@,
            decreases self.disabled_cards.len() - i,
        {
            if same_text(self.disabled_cards[i].as_str(), key.as_str()) {
                assert(views_of(self.disabled_cards@)[i as int] == key@);
                return false;
            }
            i = i + 1;
        }
        assert forall|j: int| 0 <= j < views_of(self.disabled_cards@).len()
            implies #[trigger] views_of(self.disabled_cards@)[j] != key@ by {
            assert(self.disabled_cards@[j]@ != key@);
        }
        true
    }
}

/// `"{bank}|{last4}"`.
pub open spec fn card_key_text(bank: Seq<char>, last4: Option<Seq<char>>) -> Seq<char> {
    bank + seq!['|'] + match last4 { Some(l) => l, None => Seq::<char>::empty() }
}

// ---------------------------------------------------------------------------
// Writing settings
// ---------------------------------------------------------------------------

/// `"true"` or `"false"`.
pub open spec fn bool_text(b: bool) -> Seq<char> {
    if b { "true"@ } else { "false"@ }
}

fn pair(k: &str, v: String) -> (r: (String, String))
    ensures
        r.0@ == k@,
        r.1@ == v@,
{
    let kc = chars_of(k);
    (string_of(kc.as_slice()), v)
}

/// The account settings written by the setup wizard: host, port, user,
/// mailbox and the selected banks joined with `,`.
pub open spec fn account_settings(host: Seq<char>, port: int, user: Seq<char>, mailbox: Seq<char>, selected: Seq<Seq<char>>) -> Seq<(Seq<char>, Seq<char>)> {
    seq![
        ("imap_host"@, host),
        ("imap_port"@, int_text(port)),
        ("imap_user"@, user),
        ("imap_mailbox"@, mailbox),
        ("selected_banks"@, join_with(selected, ","@)),
    ]
}

/// The settings that completing the setup writes.
pub fn setup_settings(host: &str, port: u16, user: &str, mailbox: &str, selected_banks: &Vec<String>) -> (r: Vec<(String, String)>)
    ensures
        settings_view(r@) == account_settings(host@, port as int, user@, mailbox@, views_of(selected_banks@)),
{
    let mut r: Vec<(String, String)> = Vec::new();
    r.push(pair("imap_host", string_of(chars_of(host).as_slice())));
    r.push(pair("imap_port", int_string(port as i64)));
    r.push(pair("imap_user", string_of(chars_of(user).as_slice())));
    r.push(pair("imap_mailbox", string_of(chars_of(mailbox).as_slice())));
    r.push(pair("selected_banks", join_strings(selected_banks, ",")));
    assert(settings_view(r@) =~= account_settings(host@, port as int, user@, mailbox@, views_of(selected_banks@)));
    r
}

/// The settings that the settings screen writes: those of the setup, the
/// reminder lead (negative leads stored as 0) and the login-item choice.
pub fn update_settings_pairs(
    host: &str,
    port: u16,
    user: &str,
    mailbox: &str,
    selected_banks: &Vec<String>,
    reminder_days_before: i64,
    launch_at_login: bool,
) -> (r: Vec<(String, String)>)
    ensures
        settings_view(r@) == account_settings(host@, port as int, user@, mailbox@, views_of(selected_banks@))
            .push(("reminder_days_before"@, int_text(if reminder_days_before > 0 { reminder_days_before as int } else { 0 })))
            .push(("launch_at_login"@, bool_text(launch_at_login))),
{
    let mut r = setup_settings(host, port, user, mailbox, selected_banks);
    let lead: i64 = if reminder_days_before > 0 { reminder_days_before } else { 0 };
    r.push(pair("reminder_days_before", int_string(lead)));
    let b = if launch_at_login { "true" } else { "false" };
    r.push(pair("launch_at_login", string_of(chars_of(b).as_slice())));
    assert(settings_view(r@) =~= account_settings(host@, port as int, user@, mailbox@, views_of(selected_banks@))
        .push(("reminder_days_before"@, int_text(if reminder_days_before > 0 { reminder_days_before as int } else { 0 })))
        .push(("launch_at_login"@, bool_text(launch_at_login))));
    r
}

// ---------------------------------------------------------------------------
// Reading back what was written
// ---------------------------------------------------------------------------

/// Bank names that a comma-separated list setting keeps as they are: none
/// empty, none with a comma or surrounding white space.
pub open spec fn clean_names(names: Seq<Seq<char>>) -> bool {
    forall|i: int| 0 <= i < names.len() ==> {
        &&& (#[trigger] names[i]).len() > 0
        &&& trim_ws(names[i]) == names[i]
        &&& !names[i].contains(',')
    }
}

proof fn lemma_setting_at(s: Seq<(Seq<char>, Seq<char>)>, key: Seq<char>, k: int)
    requires
        0 <= k < s.len(),
        s[k].0 == key,
        forall|j: int| 0 <= j < k ==> (#[trigger] s[j]).0 != key,
    ensures
        setting(s, key) == Some(s[k].1),
    decreases k,
{
    if k > 0 {
        assert(s[0].0 != key);
        let t = s.drop_first();
        assert forall|j: int| 0 <= j < k - 1 implies (#[trigger] t[j]).0 != key by {
            assert(t[j] == s[j + 1]);
        }
        lemma_setting_at(t, key, k - 1);
    }
}

proof fn lemma_filter_keeps_nonempty(s: Seq<Seq<char>>)
    requires
        forall|i: int| 0 <= i < s.len() ==> (#[trigger] s[i]).len() > 0,
    ensures
        s.filter(|p: Seq<char>| p.len() > 0) == s,
    decreases s.len(),
{
    let keep = |p: Seq<char>| p.len() > 0;
    if s.len() == 0 {
        assert(s.filter(keep) =~= s) by {
            reveal_with_fuel(Seq::filter, 1);
        }
    } else {
        let init = s.drop_last();
        assert forall|i: int| 0 <= i < init.len() implies (#[trigger] init[i]).len() > 0 by {
            assert(init[i] == s[i]);
        }
        lemma_filter_keeps_nonempty(init);
        init.lemma_filter_push(s.last(), keep);
        assert(s.last().len() > 0) by {
            assert(s[s.len() - 1] == s.last());
        }
        assert(init.push(s.last()) =~= s);
    }
}

/// A list of clean names joined with `,` reads back as the same list.
pub proof fn lemma_name_list_join(names: Seq<Seq<char>>)
    requires
        clean_names(names),
    ensures
        name_list(join_with(names, ","@)) == names,
{
    reveal_strlit(",");
    assert(","@ =~= seq![',']);
    let keep = |p: Seq<char>| p.len() > 0;
    let e = Seq::<char>::empty();
    if names.len() == 0 {
        assert(join_with(names, ","@) == e);
        assert(split_by(e, ',') == seq![e]);
        assert(trim_ws(e) == e);
        let m = seq![e].map_values(|p: Seq<char>| trim_ws(p));
        assert(m =~= seq![e]);
        Seq::<Seq<char>>::empty().lemma_filter_push(e, keep);
        assert(Seq::<Seq<char>>::empty().push(e) =~= seq![e]);
        assert(Seq::<Seq<char>>::empty().filter(keep) =~= Seq::<Seq<char>>::empty()) by {
            reveal_with_fuel(Seq::filter, 1);
        }
        assert(name_list(join_with(names, ","@)) =~= names);
    } else {
        assert forall|i: int| 0 <= i < names.len() implies !(#[trigger] names[i]).contains(',') by {}
        lemma_split_by_join(names, ',');
        let m = names.map_values(|p: Seq<char>| trim_ws(p));
        assert(m =~= names);
        lemma_filter_keeps_nonempty(names);
    }
}

/// What the setup wizard writes reads back: while no account list was ever
/// stored, the configuration holds the one account written, and the banks
/// selected.
pub proof fn lemma_setup_read_back(host: Seq<char>, port: u16, user: Seq<char>, mailbox: Seq<char>, selected: Seq<Seq<char>>, c: Config)
    requires
        user.len() > 0,
        clean_names(selected),
        config_spec(account_settings(host, port as int, user, mailbox, selected), StoredAccounts::Absent, None, c),
    ensures
        accounts_view(c.accounts@) == seq![(host, port as int, user, mailbox)],
        views_of(c.selected_banks@) == selected,
{
    reveal_strlit("imap_host");
    reveal_strlit("imap_port");
    reveal_strlit("imap_user");
    reveal_strlit("imap_mailbox");
    reveal_strlit("selected_banks");
    let s = account_settings(host, port as int, user, mailbox, selected);
    assert("imap_host"@[5] != "imap_port"@[5] && "imap_host"@[5] != "imap_user"@[5]
        && "imap_port"@[5] != "imap_user"@[5] && "imap_host"@[5] != "imap_mailbox"@[5]
        && "imap_port"@[5] != "imap_mailbox"@[5] && "imap_user"@[5] != "imap_mailbox"@[5]);
    lemma_setting_at(s, "imap_host"@, 0);
    lemma_setting_at(s, "imap_port"@, 1);
    lemma_setting_at(s, "imap_user"@, 2);
    lemma_setting_at(s, "imap_mailbox"@, 3);
    lemma_setting_at(s, "selected_banks"@, 4);
    lemma_parse_int_text(port as int, false);
    lemma_name_list_join(selected);
    assert(accounts_spec(s, StoredAccounts::Absent) =~= seq![(host, port as int, user, mailbox)]);
}

/// What the settings screen writes reads back likewise, with the reminder
/// lead (negative leads as 0) and the login-item choice.
pub proof fn lemma_update_read_back(host: Seq<char>, port: u16, user: Seq<char>, mailbox: Seq<char>, selected: Seq<Seq<char>>,
    reminder_days_before: i64, launch_at_login: bool, c: Config)
    requires
        user.len() > 0,
        clean_names(selected),
        config_spec(account_settings(host, port as int, user, mailbox, selected)
            .push(("reminder_days_before"@, int_text(if reminder_days_before > 0 { reminder_days_before as int } else { 0 })))
            .push(("launch_at_login"@, bool_text(launch_at_login))), StoredAccounts::Absent, None, c),
    ensures
        accounts_view(c.accounts@) == seq![(host, port as int, user, mailbox)],
        views_of(c.selected_banks@) == selected,
        c.reminder_days_before == if reminder_days_before > 0 { reminder_days_before } else { 0 },
        c.launch_at_login == launch_at_login,
{
    reveal_strlit("imap_host");
    reveal_strlit("imap_port");
    reveal_strlit("imap_user");
    reveal_strlit("imap_mailbox");
    reveal_strlit("selected_banks");
    reveal_strlit("reminder_days_before");
    reveal_strlit("launch_at_login");
    reveal_strlit("true");
    reveal_strlit("false");
    let lead: int = if reminder_days_before > 0 { reminder_days_before as int } else { 0 };
    let s = account_settings(host, port as int, user, mailbox, selected)
        .push(("reminder_days_before"@, int_text(lead)))
        .push(("launch_at_login"@, bool_text(launch_at_login)));
    assert("imap_host"@[5] != "imap_port"@[5] && "imap_host"@[5] != "imap_user"@[5]
        && "imap_port"@[5] != "imap_user"@[5] && "imap_host"@[5] != "imap_mailbox"@[5]
        && "imap_port"@[5] != "imap_mailbox"@[5] && "imap_user"@[5] != "imap_mailbox"@[5]);
    lemma_setting_at(s, "imap_host"@, 0);
    lemma_setting_at(s, "imap_port"@, 1);
    lemma_setting_at(s, "imap_user"@, 2);
    lemma_setting_at(s, "imap_mailbox"@, 3);
    lemma_setting_at(s, "selected_banks"@, 4);
    assert("reminder_days_before"@[0] == 'r' && "launch_at_login"@[0] == 'l' && "imap_host"@[0] == 'i'
        && "imap_port"@[0] == 'i' && "imap_user"@[0] == 'i' && "imap_mailbox"@[0] == 'i'
        && "selected_banks"@[0] == 's');
    lemma_setting_at(s, "reminder_days_before"@, 5);
    lemma_setting_at(s, "launch_at_login"@, 6);
    lemma_parse_int_text(port as int, false);
    lemma_parse_int_text(lead, true);
    assert("true"@.len() == 4 && "false"@.len() == 5);
    assert(setting_or(s, "launch_at_login"@, "true"@) == bool_text(launch_at_login));
    lemma_name_list_join(selected);
    assert(accounts_spec(s, StoredAccounts::Absent) =~= seq![(host, port as int, user, mailbox)]);
}

} // verus!
