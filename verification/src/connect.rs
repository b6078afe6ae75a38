//! Reaching a host: the ssh configuration for a target, and the handshake
//! as a sequence of events and answers.

use crate::paths::opt;
use crate::sessions::{
    forget_password, remember_password, take_password, SessionStore, StoreModel,
};
use crate::text::{
    alike, cat, cat3, chars_of, decimal, number, same, same_ignoring_case, text_of, texts,
    trim_end, trimmed_end,
};
use vstd::prelude::*;
use vstd::string::*;

verus! {

/// Seconds to wait for the next event of an interactive handshake.
pub const CONNECT_TIMEOUT: u64 = 30;

/// Seconds that a helper connection may take in all.
pub const HELPER_CONNECT_TIMEOUT: u64 = 15;

/// Seconds to wait for the user to type a password or trust decision
/// before giving up on the connection.
pub const USER_PROMPT_TIMEOUT: u64 = 120;

/// Position of the first `c`, or the length.
pub open spec fn first_of(s: Seq<char>, c: char) -> int
    decreases s.len(),
{
    if s.len() == 0 || s[0] == c {
        0
    } else {
        1 + first_of(s.skip(1), c)
    }
}

/// Login and host of a typed target.
pub open spec fn login_of(target: Seq<char>) -> (Option<Seq<char>>, Seq<char>) {
    let at = first_of(target, '@');
    if at < target.len() {
        (Some(target.take(at)), target.skip(at + 1))
    } else {
        (None, target)
    }
}

/// Split `user@host` at its first `@`; a bare host has no login.
pub fn split_login(target: &str) -> (r: (Option<String>, String))
    ensures
        (opt(r.0), r.1@) == login_of(target@),
{
    let v = chars_of(target);
    let n: usize = v.len();
    let mut i: usize = 0;
    proof {
        assert(v@.skip(0) =~= v@);
    }
    while i < n && v[i] != '@'
        invariant
            i <= n == v@.len(),
            first_of(v@, '@') == i + first_of(v@.skip(i as int), '@'),
        decreases n - i,
    {
        proof {
            assert(v@.skip(i as int).skip(1) =~= v@.skip(i + 1));
        }
        i += 1;
    }
    if i < n {
        let user = text_of(&v, 0, i);
        let host = text_of(&v, i + 1, n);
        proof {
            assert(user@ =~= target@.take(i as int));
            assert(host@ =~= target@.skip(i + 1));
        }
        (Some(user), host)
    } else {
        (None, target.to_owned())
    }
}

/// Settings for one host, each name once.
#[derive(Debug)]
pub struct ConfigMap {
    pub entries: Vec<(String, String)>,
}

/// Names and values as characters.
pub open spec fn pairs(v: Seq<(String, String)>) -> Seq<(Seq<char>, Seq<char>)> {
    v.map_values(|p: (String, String)| (p.0@, p.1@))
}

impl View for ConfigMap {
    type V = Seq<(Seq<char>, Seq<char>)>;

    open spec fn view(&self) -> Seq<(Seq<char>, Seq<char>)> {
        pairs(self.entries@)
    }
}

/// Position of a setting, or the number of settings.
pub open spec fn setting_at(m: Seq<(Seq<char>, Seq<char>)>, key: Seq<char>) -> int
    decreases m.len(),
{
    if m.len() == 0 || m[0].0 == key {
        0
    } else {
        1 + setting_at(m.skip(1), key)
    }
}

/// Value of a setting.
pub open spec fn setting(m: Seq<(Seq<char>, Seq<char>)>, key: Seq<char>) -> Option<Seq<char>> {
    let at = setting_at(m, key);
    if at < m.len() {
        Some(m[at].1)
    } else {
        None
    }
}

/// The settings with one of them set.
pub open spec fn with_setting(
    m: Seq<(Seq<char>, Seq<char>)>,
    key: Seq<char>,
    value: Seq<char>,
) -> Seq<(Seq<char>, Seq<char>)> {
    let at = setting_at(m, key);
    if at < m.len() {
        m.update(at, (key, value))
    } else {
        m.push((key, value))
    }
}

impl ConfigMap {
    pub fn new() -> (r: Self)
        ensures
            r@ == Seq::<(Seq<char>, Seq<char>)>::empty(),
    {
        ConfigMap { entries: Vec::new() }
    }

    fn position(&self, key: &str) -> (r: usize)
        ensures
            r == setting_at(self@, key@),
            r <= self@.len(),
    {
        let ghost m = self@;
        let n: usize = self.entries.len();
        let mut i: usize = 0;
        proof {
            assert(m.skip(0) =~= m);
        }
        while i < n && !same(self.entries[i].0.as_str(), key)
            invariant
                i <= n == self.entries@.len(),
                m == pairs(self.entries@),
                setting_at(m, key@) == i + setting_at(m.skip(i as int), key@),
            decreases n - i,
        {
            proof {
                assert(m[i as int].0 == self.entries@[i as int].0@);
                assert(m.skip(i as int).skip(1) =~= m.skip(i + 1));
            }
            i += 1;
        }
        proof {
            if i < n {
                assert(m[i as int].0 == self.entries@[i as int].0@);
            }
        }
        i
    }

    /// Value of a setting.
    pub fn get(&self, key: &str) -> (r: Option<&String>)
        ensures
            match r {
                Some(v) => setting(self@, key@) == Some(v@),
                None => setting(self@, key@) is None,
            },
    {
        let at = self.position(key);
        if at < self.entries.len() {
            proof {
                assert(self@[at as int] == (
                    self.entries@[at as int].0@,
                    self.entries@[at as int].1@,
                ));
            }
            Some(&self.entries[at].1)
        } else {
            None
        }
    }

    /// Set a setting.
    pub fn insert(&mut self, key: &str, value: &str)
        ensures
            final(self)@ == with_setting(old(self)@, key@, value@),
    {
        let ghost m = self@;
        let at = self.position(key);
        if at < self.entries.len() {
            self.entries.set(at, (key.to_owned(), value.to_owned()));
            proof {
                assert(self@ =~= m.update(at as int, (key@, value@)));
            }
        } else {
            self.entries.push((key.to_owned(), value.to_owned()));
            proof {
                assert(self@ =~= m.push((key@, value@)));
            }
        }
    }
}

/// A setting reads back as it was set, and no other setting changes.
pub proof fn a_setting_reads_back(
    m: Seq<(Seq<char>, Seq<char>)>,
    key: Seq<char>,
    value: Seq<char>,
    other: Seq<char>,
)
    ensures
        setting(with_setting(m, key, value), key) == Some(value),
        other != key ==> setting(with_setting(m, key, value), other) == setting(m, other),
    decreases m.len(),
{
    let w = with_setting(m, key, value);
    if m.len() == 0 {
        assert(w =~= seq![(key, value)]);
        assert(w.skip(1) =~= Seq::empty());
        assert(setting_at(w.skip(1), other) == 0);
        assert(other != key ==> setting_at(w, other) == 1);
    } else if m[0].0 == key {
        assert(w.skip(1) =~= m.skip(1));
        assert(w[0] == (key, value));
        if other != key {
            lemma_setting_at(m.skip(1), other);
            assert(setting_at(w, other) == 1 + setting_at(m.skip(1), other));
            assert(setting_at(m, other) == 1 + setting_at(m.skip(1), other));
        }
    } else {
        a_setting_reads_back(m.skip(1), key, value, other);
        lemma_setting_at(m.skip(1), key);
        assert(w.skip(1) =~= with_setting(m.skip(1), key, value));
        assert(w[0] == m[0]);
        lemma_setting_at(w.skip(1), key);
        lemma_setting_at(w.skip(1), other);
        lemma_setting_at(m.skip(1), other);
        if other != key && m[0].0 != other {
            let at = setting_at(m.skip(1), other);
            let to = setting_at(w.skip(1), other);
            assert(setting_at(m, other) == 1 + at);
            assert(setting_at(w, other) == 1 + to);
            assert(at < m.skip(1).len() ==> m.skip(1)[at] == m[at + 1]);
            assert(to < w.skip(1).len() ==> w.skip(1)[to] == w[to + 1]);
        }
    }
}

proof fn lemma_setting_at(m: Seq<(Seq<char>, Seq<char>)>, key: Seq<char>)
    ensures
        0 <= setting_at(m, key) <= m.len(),
    decreases m.len(),
{
    if m.len() > 0 {
        lemma_setting_at(m.skip(1), key);
    }
}

/// A host that the ssh configuration names, with its settings.
#[derive(Debug)]
pub struct HostBlock {
    pub alias: String,
    pub config: ConfigMap,
}

/// A named host, with its texts as characters.
pub struct HostModel {
    pub alias: Seq<char>,
    pub config: Seq<(Seq<char>, Seq<char>)>,
}

impl View for HostBlock {
    type V = HostModel;

    open spec fn view(&self) -> HostModel {
        HostModel { alias: self.alias@, config: self.config@ }
    }
}

pub open spec fn host_list(v: Seq<HostBlock>) -> Seq<HostModel> {
    v.map_values(|h: HostBlock| h@)
}

impl HostModel {
    /// The block is about this host, by its `Hostname` or, without one, by
    /// its own name.
    pub open spec fn names(self, host: Seq<char>) -> bool {
        match setting(self.config, "hostname"@) {
            Some(h) => alike(h, host),
            None => alike(self.alias, host),
        }
    }

    /// The block is for this login: it names the same one or none.
    pub open spec fn admits(self, user: Option<Seq<char>>) -> bool {
        match user {
            Some(u) => match setting(self.config, "user"@) {
                Some(cu) => cu == u,
                None => true,
            },
            None => true,
        }
    }
}

/// The first of the first `n` blocks that is about this host and, where
/// `strict`, for this login.
pub open spec fn first_block(
    hosts: Seq<HostModel>,
    user: Option<Seq<char>>,
    host: Seq<char>,
    strict: bool,
    n: int,
) -> Option<int>
    decreases n,
{
    if n <= 0 {
        None
    } else {
        match first_block(hosts, user, host, strict, n - 1) {
            Some(i) => Some(i),
            None => if hosts[n - 1].names(host) && (!strict || hosts[n - 1].admits(user)) {
                Some(n - 1)
            } else {
                None
            },
        }
    }
}

/// The block to use: the first one about this host and for this login, else
/// the first one about this host.
pub open spec fn chosen_block(
    hosts: Seq<HostModel>,
    user: Option<Seq<char>>,
    host: Seq<char>,
) -> Option<int> {
    match first_block(hosts, user, host, true, hosts.len() as int) {
        Some(i) => Some(i),
        None => first_block(hosts, user, host, false, hosts.len() as int),
    }
}

/// The settings to connect with.
pub open spec fn config_for(
    hosts: Seq<HostModel>,
    fallback: Seq<(Seq<char>, Seq<char>)>,
    user: Option<Seq<char>>,
    host: Seq<char>,
    libssh: bool,
) -> Seq<(Seq<char>, Seq<char>)> {
    let base = match chosen_block(hosts, user, host) {
        Some(i) => hosts[i].config,
        None => fallback,
    };
    let own = match user {
        Some(u) => with_setting(base, "user"@, u),
        None => base,
    };
    let backend = if libssh {
        "libssh"@
    } else {
        "ssh2"@
    };
    with_setting(
        with_setting(own, "wezterm_ssh_backend"@, backend),
        "serveraliveinterval"@,
        "15"@,
    )
}

fn is_named(block: &HostBlock, host: &str) -> (r: bool)
    ensures
        r == block@.names(host@),
{
    match block.config.get("hostname") {
        Some(h) => same_ignoring_case(h.as_str(), host),
        None => same_ignoring_case(block.alias.as_str(), host),
    }
}

fn is_admitted(block: &HostBlock, user: Option<&str>) -> (r: bool)
    ensures
        r == block@.admits(
            match user {
                Some(u) => Some(u@),
                None => None,
            },
        ),
{
    match user {
        Some(u) => match block.config.get("user") {
            Some(cu) => same(cu.as_str(), u),
            None => true,
        },
        None => true,
    }
}

proof fn lemma_first_block(
    hosts: Seq<HostModel>,
    user: Option<Seq<char>>,
    host: Seq<char>,
    strict: bool,
    m: int,
    n: int,
)
    requires
        0 <= m <= n,
        first_block(hosts, user, host, strict, m) is Some,
    ensures
        first_block(hosts, user, host, strict, n) == first_block(hosts, user, host, strict, m),
    decreases n,
{
    if m < n {
        lemma_first_block(hosts, user, host, strict, m, n - 1);
    }
}

/// Position of the block to use for a host, if the configuration has one.
pub fn choose_block(hosts: &Vec<HostBlock>, user: Option<&str>, host: &str) -> (r: Option<usize>)
    ensures
        match (r, chosen_block(
            host_list(hosts@),
            match user {
                Some(u) => Some(u@),
                None => None,
            },
            host@,
        )) {
            (Some(a), Some(b)) => a == b && a < hosts@.len(),
            (None, None) => true,
            _ => false,
        },
{
    let ghost list = host_list(hosts@);
    let ghost u = match user {
        Some(u) => Some(u@),
        None => None,
    };
    let n: usize = hosts.len();
    let mut matched: Option<usize> = None;
    let mut i: usize = 0;
    while i < n
        invariant
            i <= n == hosts@.len(),
            list == host_list(hosts@),
            u == (match user {
                Some(u) => Some(u@),
                None => None,
            }),
            first_block(list, u, host@, true, i as int) is None,
            match (matched, first_block(list, u, host@, false, i as int)) {
                (Some(a), Some(b)) => a == b && a < n,
                (None, None) => true,
                _ => false,
            },
        decreases n - i,
    {
        proof {
            assert(list[i as int] == hosts@[i as int]@);
        }
        if is_named(&hosts[i], host) {
            if is_admitted(&hosts[i], user) {
                proof {
                    lemma_first_block(list, u, host@, true, i + 1, n as int);
                }
                return Some(i);
            }
            if matched.is_none() {
                matched = Some(i);
            }
        }
        i += 1;
    }
    matched
}

/// The settings to reach `[user@]host`: the block of the ssh configuration
/// that is about the host, also where only its `Hostname` says so, else
/// what the configuration has for the name as typed. A typed login always
/// wins over a configured one.
pub fn build_config_for_target(
    hosts: &Vec<HostBlock>,
    fallback: &ConfigMap,
    user: Option<&str>,
    host: &str,
    libssh: bool,
) -> (r: ConfigMap)
    ensures
        r@ == config_for(
            host_list(hosts@),
            fallback@,
            match user {
                Some(u) => Some(u@),
                None => None,
            },
            host@,
            libssh,
        ),
{
    let mut map = match choose_block(hosts, user, host) {
        Some(i) => {
            proof {
                assert(host_list(hosts@)[i as int] == hosts@[i as int]@);
            }
            hosts[i].config.clone()
        },
        None => fallback.clone(),
    };
    if let Some(u) = user {
        map.insert("user", u);
    }
    map.insert(
        "wezterm_ssh_backend",
        if libssh {
            "libssh"
        } else {
            "ssh2"
        },
    );
    // Keep idle connections alive through NAT and server idle drops.
    map.insert("serveraliveinterval", "15");
    map
}

impl Clone for ConfigMap {
    fn clone(&self) -> (r: Self)
        ensures
            r@ == self@,
    {
        let mut entries: Vec<(String, String)> = Vec::new();
        let n: usize = self.entries.len();
        let mut i: usize = 0;
        while i < n
            invariant
                i <= n == self.entries@.len(),
                pairs(entries@) == pairs(self.entries@).take(i as int),
            decreases n - i,
        {
            let ghost before = pairs(entries@);
            entries.push((self.entries[i].0.clone(), self.entries[i].1.clone()));
            proof {
                assert(pairs(entries@) =~= before.push(
                    (self.entries@[i as int].0@, self.entries@[i as int].1@),
                ));
                assert(pairs(self.entries@).take(i + 1) =~= pairs(self.entries@).take(
                    i as int,
                ).push(pairs(self.entries@)[i as int]));
            }
            i += 1;
        }
        proof {
            assert(pairs(self.entries@).take(n as int) =~= pairs(self.entries@));
        }
        ConfigMap { entries }
    }
}

/// A typed login is the one that connects, whatever the configuration says.
pub proof fn a_typed_login_wins(
    hosts: Seq<HostModel>,
    fallback: Seq<(Seq<char>, Seq<char>)>,
    user: Seq<char>,
    host: Seq<char>,
    libssh: bool,
)
    ensures
        setting(config_for(hosts, fallback, Some(user), host, libssh), "user"@) == Some(user),
{
    reveal_strlit("user");
    reveal_strlit("wezterm_ssh_backend");
    reveal_strlit("serveraliveinterval");
    let base = match chosen_block(hosts, Some(user), host) {
        Some(i) => hosts[i].config,
        None => fallback,
    };
    let backend = if libssh {
        "libssh"@
    } else {
        "ssh2"@
    };
    assert("user"@.len() != "wezterm_ssh_backend"@.len());
    assert("user"@.len() != "serveraliveinterval"@.len());
    let own = with_setting(base, "user"@, user);
    let more = with_setting(own, "wezterm_ssh_backend"@, backend);
    a_setting_reads_back(base, "user"@, user, "user"@);
    a_setting_reads_back(own, "wezterm_ssh_backend"@, backend, "user"@);
    a_setting_reads_back(more, "serveraliveinterval"@, "15"@, "user"@);
}

/// What the ssh session reports while it is being set up.
#[derive(Debug)]
pub enum SessionEvent {
    Authenticated,
    Banner,
    /// The host is not known; someone has to decide.
    HostVerify { message: String },
    Authenticate { username: String, prompts: Vec<String> },
    HostVerificationFailed { remote_address: String, key: String },
    Error(String),
    /// Nothing more will be reported.
    Closed(String),
    /// Nothing was reported in time.
    TimedOut,
}

/// A report, with its texts as characters.
pub enum SessionModel {
    Authenticated,
    Banner,
    HostVerify { message: Seq<char> },
    Authenticate { username: Seq<char>, prompts: Seq<Seq<char>> },
    HostVerificationFailed { remote_address: Seq<char>, key: Seq<char> },
    Error(Seq<char>),
    Closed(Seq<char>),
    TimedOut,
}

impl View for SessionEvent {
    type V = SessionModel;

    open spec fn view(&self) -> SessionModel {
        match *self {
            SessionEvent::Authenticated => SessionModel::Authenticated,
            SessionEvent::Banner => SessionModel::Banner,
            SessionEvent::HostVerify { message } => SessionModel::HostVerify { message: message@ },
            SessionEvent::Authenticate { username, prompts } => SessionModel::Authenticate {
                username: username@,
                prompts: texts(prompts@),
            },
            SessionEvent::HostVerificationFailed { remote_address, key } => {
                SessionModel::HostVerificationFailed {
                    remote_address: remote_address@,
                    key: key@,
                }
            },
            SessionEvent::Error(err) => SessionModel::Error(err@),
            SessionEvent::Closed(err) => SessionModel::Closed(err@),
            SessionEvent::TimedOut => SessionModel::TimedOut,
        }
    }
}

/// What to do next.
#[derive(Debug)]
pub enum Step {
    /// Wait for the next report.
    Wait,
    /// Trust the host.
    Trust,
    /// Ask the user whether to trust the host.
    AskTrust { message: String },
    /// Ask the user for a password.
    AskPassword { username: String, prompt: String },
    /// Answer the prompts.
    Answer(Vec<String>),
    /// The session is authenticated.
    Done,
    Fail(String),
}

/// What to do next, with its texts as characters.
pub enum StepModel {
    Wait,
    Trust,
    AskTrust { message: Seq<char> },
    AskPassword { username: Seq<char>, prompt: Seq<char> },
    Answer(Seq<Seq<char>>),
    Done,
    Fail(Seq<char>),
}

impl View for Step {
    type V = StepModel;

    open spec fn view(&self) -> StepModel {
        match *self {
            Step::Wait => StepModel::Wait,
            Step::Trust => StepModel::Trust,
            Step::AskTrust { message } => StepModel::AskTrust { message: message@ },
            Step::AskPassword { username, prompt } => StepModel::AskPassword {
                username: username@,
                prompt: prompt@,
            },
            Step::Answer(answers) => StepModel::Answer(texts(answers@)),
            Step::Done => StepModel::Done,
            Step::Fail(err) => StepModel::Fail(err@),
        }
    }
}

/// A handshake under way.
#[derive(Debug)]
pub struct Handshake {
    pub target: String,
    /// Someone can be asked. A helper connection has nobody to ask: it
    /// trusts the host that the main session trusts, and answers only with
    /// a password that was typed before.
    pub interactive: bool,
    pub attempts: u64,
    /// Password that was last handed over, remembered once it has worked.
    pub working: Option<String>,
}

/// A handshake, with its texts as characters.
pub struct HandshakeModel {
    pub target: Seq<char>,
    pub interactive: bool,
    pub attempts: nat,
    pub working: Option<Seq<char>>,
}

impl View for Handshake {
    type V = HandshakeModel;

    open spec fn view(&self) -> HandshakeModel {
        HandshakeModel {
            target: self.target@,
            interactive: self.interactive,
            attempts: self.attempts as nat,
            working: opt(self.working),
        }
    }
}

/// One answer for every prompt, and one where there is no prompt.
pub open spec fn answers_for(password: Seq<char>, prompts: nat) -> Seq<Seq<char>> {
    Seq::new(
        if prompts == 0 {
            1
        } else {
            prompts
        },
        |i: int| password,
    )
}

/// The text that asks for a password; a further attempt says so.
pub open spec fn password_prompt(prompts: Seq<Seq<char>>, attempts: nat) -> Seq<char> {
    let base = if prompts.len() > 0 {
        trim_end(prompts[0], ':')
    } else {
        "Password"@
    };
    if attempts > 1 {
        base + " (attempt "@ + decimal(attempts) + ")"@
    } else {
        base
    }
}

impl HandshakeModel {
    pub open spec fn fresh(target: Seq<char>, interactive: bool) -> HandshakeModel {
        HandshakeModel { target, interactive, attempts: 0, working: None }
    }

    pub open spec fn tried(self) -> HandshakeModel {
        HandshakeModel {
            attempts: if self.attempts < u64::MAX {
                self.attempts + 1
            } else {
                self.attempts
            },
            ..self
        }
    }

    /// The text of a failure.
    pub open spec fn failure(self, event: SessionModel) -> Option<Seq<char>> {
        match event {
            SessionModel::HostVerificationFailed { remote_address, key } => if self.interactive {
                Some("host key verification failed for "@ + remote_address + ": "@ + key)
            } else {
                Some("host key verification failed: "@ + key)
            },
            SessionModel::Error(err) => if self.interactive {
                Some("ssh error: "@ + err)
            } else {
                Some(err)
            },
            SessionModel::Closed(err) => if self.interactive {
                Some("timed out connecting to "@ + self.target)
            } else {
                Some(err)
            },
            SessionModel::TimedOut => if self.interactive {
                Some("timed out connecting to "@ + self.target)
            } else {
                Some("timed out"@)
            },
            _ => None,
        }
    }

    /// The failure forgets the password of this target.
    pub open spec fn forgets(self, event: SessionModel) -> bool {
        !self.interactive || event is HostVerificationFailed
    }

    /// The handshake, what is remembered, and what to do, after a report.
    pub open spec fn after(self, store: StoreModel, event: SessionModel) -> (
        HandshakeModel,
        StoreModel,
        StepModel,
    ) {
        match event {
            SessionModel::Authenticated => (
                self,
                match self.working {
                    Some(p) => store.remembered(self.target, p),
                    None => store,
                },
                StepModel::Done,
            ),
            SessionModel::Banner => (self, store, StepModel::Wait),
            SessionModel::HostVerify { message } => (
                self,
                store,
                if self.interactive {
                    StepModel::AskTrust { message }
                } else {
                    StepModel::Trust
                },
            ),
            SessionModel::Authenticate { username, prompts } => {
                let next = self.tried();
                let left = store.forgotten(self.target);
                match store.password(self.target) {
                    Some(p) => (
                        HandshakeModel { working: Some(p), ..next },
                        left,
                        StepModel::Answer(answers_for(p, prompts.len())),
                    ),
                    None => (
                        next,
                        left,
                        if self.interactive {
                            StepModel::AskPassword {
                                username,
                                prompt: password_prompt(prompts, next.attempts),
                            }
                        } else {
                            StepModel::Fail("password authentication required"@)
                        },
                    ),
                }
            },
            _ => (
                self,
                if self.forgets(event) {
                    store.forgotten(self.target)
                } else {
                    store
                },
                StepModel::Fail(self.failure(event)->0),
            ),
        }
    }

    /// The handshake after the user's reply to a password prompt.
    pub open spec fn typed(self, reply: Option<Seq<char>>) -> HandshakeModel {
        match reply {
            Some(p) => HandshakeModel { working: Some(p), ..self },
            None => self,
        }
    }
}

/// One answer for every prompt, and one where there is no prompt: prompts
/// beyond the first are rare for password servers.
fn answer_all(password: &str, prompts: usize) -> (r: Vec<String>)
    ensures
        texts(r@) == answers_for(password@, prompts as nat),
{
    let n: usize = if prompts == 0 {
        1
    } else {
        prompts
    };
    let mut out: Vec<String> = Vec::new();
    let mut i: usize = 0;
    while i < n
        invariant
            i <= n,
            texts(out@) == Seq::new(i as nat, |k: int| password@),
        decreases n - i,
    {
        let ghost before = texts(out@);
        out.push(password.to_owned());
        proof {
            assert(texts(out@) =~= before.push(password@));
            assert(texts(out@) =~= Seq::new((i + 1) as nat, |k: int| password@));
        }
        i += 1;
    }
    out
}

fn prompt_text(prompts: &Vec<String>, attempts: u64) -> (r: String)
    ensures
        r@ == password_prompt(texts(prompts@), attempts as nat),
{
    let base = if prompts.len() > 0 {
        proof {
            assert(texts(prompts@)[0] == prompts@[0]@);
        }
        trimmed_end(prompts[0].as_str(), ':')
    } else {
        "Password".to_owned()
    };
    if attempts > 1 {
        let mut text = cat3(base.as_str(), " (attempt ", number(attempts).as_str());
        text.append(")");
        text
    } else {
        base
    }
}

impl Handshake {
    pub fn new(target: String, interactive: bool) -> (r: Self)
        ensures
            r@ == HandshakeModel::fresh(target@, interactive),
    {
        Handshake { target, interactive, attempts: 0, working: None }
    }

    fn failing(&self, event: &SessionEvent) -> (r: Option<String>)
        ensures
            opt(r) == self@.failure(event@),
    {
        match event {
            SessionEvent::HostVerificationFailed { remote_address, key } => if self.interactive {
                let mut text = cat3(
                    "host key verification failed for ",
                    remote_address.as_str(),
                    ": ",
                );
                text.append(key.as_str());
                Some(text)
            } else {
                Some(cat("host key verification failed: ", key.as_str()))
            },
            SessionEvent::Error(err) => if self.interactive {
                Some(cat("ssh error: ", err.as_str()))
            } else {
                Some(err.clone())
            },
            SessionEvent::Closed(err) => if self.interactive {
                Some(cat("timed out connecting to ", self.target.as_str()))
            } else {
                Some(err.clone())
            },
            SessionEvent::TimedOut => if self.interactive {
                Some(cat("timed out connecting to ", self.target.as_str()))
            } else {
                Some("timed out".to_owned())
            },
            _ => None,
        }
    }

    /// What to do about a report of the session. A password typed earlier
    /// in this app run answers without another prompt; it is taken out of
    /// what is remembered, so a rejection falls through to asking.
    pub fn feed(&mut self, store: &mut SessionStore, event: SessionEvent) -> (r: Step)
        ensures
            (final(self)@, final(store)@, r@) == old(self)@.after(old(store)@, event@),
    {
        match &event {
            SessionEvent::Authenticated => {
                if let Some(password) = &self.working {
                    remember_password(store, self.target.as_str(), password.as_str());
                }
                Step::Done
            },
            SessionEvent::Banner => Step::Wait,
            SessionEvent::HostVerify { message } => {
                if self.interactive {
                    Step::AskTrust { message: message.clone() }
                } else {
                    Step::Trust
                }
            },
            SessionEvent::Authenticate { username, prompts } => {
                let count: usize = prompts.len();
                if self.attempts < u64::MAX {
                    self.attempts = self.attempts + 1;
                }
                match take_password(store, self.target.as_str()) {
                    Some(password) => {
                        let answers = answer_all(password.as_str(), count);
                        self.working = Some(password);
                        Step::Answer(answers)
                    },
                    None => {
                        if self.interactive {
                            let prompt = prompt_text(prompts, self.attempts);
                            Step::AskPassword { username: username.clone(), prompt }
                        } else {
                            Step::Fail("password authentication required".to_owned())
                        }
                    },
                }
            },
            _ => {
                let text = self.failing(&event);
                let hard = match &event {
                    SessionEvent::HostVerificationFailed { .. } => true,
                    _ => false,
                };
                if !self.interactive || hard {
                    forget_password(store, self.target.as_str());
                }
                match text {
                    Some(text) => Step::Fail(text),
                    None => Step::Wait,
                }
            },
        }
    }

    /// The answer after the user's reply to a trust prompt. A host is trusted
    /// on an explicit yes alone: a refusal, a prompt that went away and no
    /// reply in time all mean no.
    pub fn trust_typed(&self, reply: Option<bool>) -> (r: bool)
        ensures
            r == (reply == Some(true)),
    {
        match reply {
            Some(trust) => trust,
            None => false,
        }
    }

    /// The answers after the user's reply to a password prompt. A cancelled
    /// prompt gives none, which lets the handshake fail cleanly.
    pub fn password_typed(&mut self, reply: Option<String>, prompts: usize) -> (r: Vec<String>)
        ensures
            final(self)@ == old(self)@.typed(opt(reply)),
            texts(r@) == match reply {
                Some(p) => answers_for(p@, prompts as nat),
                None => Seq::empty(),
            },
    {
        match reply {
            Some(password) => {
                let answers = answer_all(password.as_str(), prompts);
                self.working = Some(password);
                answers
            },
            None => {
                let none: Vec<String> = Vec::new();
                proof {
                    assert(texts(none@) =~= Seq::empty());
                }
                none
            },
        }
    }
}

/// Directory where a fresh session starts: the one the server resolves, or
/// the root.
pub fn landing(resolved: Option<String>) -> (r: String)
    ensures
        r@ == match resolved {
            Some(p) => p@,
            None => "/"@,
        },
{
    match resolved {
        Some(p) => p,
        None => "/".to_owned(),
    }
}

/// A helper connection that fails leaves no remembered password behind, and
/// asks nobody.
pub proof fn a_failed_helper_forgets(m: HandshakeModel, store: StoreModel, event: SessionModel)
    requires
        !m.interactive,
    ensures
        m.after(store, event).2 is Fail ==> m.after(store, event).1.password(m.target) is None,
        !(m.after(store, event).2 is AskPassword) && !(m.after(store, event).2 is AskTrust),
{
}

/// A remembered password is handed over at most once per handshake: a
/// second request for it finds nothing and asks.
pub proof fn a_stale_password_is_not_repeated(
    m: HandshakeModel,
    store: StoreModel,
    username: Seq<char>,
    prompts: Seq<Seq<char>>,
)
    ensures
        ({
            let event = SessionModel::Authenticate { username, prompts };
            let (m1, s1, _) = m.after(store, event);
            m1.after(s1, event).2 == if m.interactive {
                StepModel::AskPassword {
                    username,
                    prompt: password_prompt(prompts, m1.tried().attempts),
                }
            } else {
                StepModel::Fail("password authentication required"@)
            }
        }),
{
}

proof fn lemma_first_of(s: Seq<char>, c: char)
    ensures
        0 <= first_of(s, c) <= s.len(),
        first_of(s, c) < s.len() ==> s[first_of(s, c)] == c,
        forall|i: int| 0 <= i < first_of(s, c) ==> s[i] != c,
    decreases s.len(),
{
    if s.len() > 0 && s[0] != c {
        lemma_first_of(s.skip(1), c);
        assert forall|i: int| 0 <= i < first_of(s, c) implies s[i] != c by {
            if i > 0 {
                assert(s.skip(1)[i - 1] == s[i]);
            }
        }
    }
}

/// A target is read back as it was written: `user@host` as that login at
/// that host, and a target without an at sign as a host without a login.
pub proof fn a_target_reads_back(user: Seq<char>, host: Seq<char>)
    requires
        forall|i: int| 0 <= i < user.len() ==> user[i] != '@',
    ensures
        login_of(user + seq!['@'] + host) == (Some(user), host),
        login_of(user) == (None::<Seq<char>>, user),
{
    let t = user + seq!['@'] + host;
    let n = user.len() as int;
    lemma_first_of(t, '@');
    lemma_first_of(user, '@');
    let at = first_of(t, '@');
    assert(t[n] == '@');
    if at < n {
        assert(t[at] == user[at]);
    }
    assert(at == n);
    assert(t.take(n) =~= user);
    assert(t.skip(n + 1) =~= host);
    let b = first_of(user, '@');
    if b < user.len() {
        assert(user[b] != '@');
    }
}

proof fn lemma_block(
    hosts: Seq<HostModel>,
    user: Option<Seq<char>>,
    host: Seq<char>,
    strict: bool,
    n: int,
)
    requires
        0 <= n <= hosts.len(),
    ensures
        match first_block(hosts, user, host, strict, n) {
            Some(i) => 0 <= i < n && hosts[i].names(host) && (strict ==> hosts[i].admits(user))
                && forall|j: int|
                0 <= j < i ==> !((#[trigger] hosts[j]).names(host) && (!strict || hosts[j].admits(
                    user,
                ))),
            None => forall|j: int|
                0 <= j < n ==> !((#[trigger] hosts[j]).names(host) && (!strict || hosts[j].admits(
                    user,
                ))),
        },
    decreases n,
{
    if n > 0 {
        lemma_block(hosts, user, host, strict, n - 1);
    }
}

/// The settings are those of the first block about the host that is for the
/// login, else of the first one about the host; where none is about it, no
/// block is used.
pub proof fn the_first_fitting_block_is_used(
    hosts: Seq<HostModel>,
    user: Option<Seq<char>>,
    host: Seq<char>,
)
    ensures
        match chosen_block(hosts, user, host) {
            Some(i) => {
                &&& 0 <= i < hosts.len()
                &&& hosts[i].names(host)
                &&& hosts[i].admits(user) ==> forall|j: int|
                    0 <= j < i ==> !((#[trigger] hosts[j]).names(host) && hosts[j].admits(user))
                &&& !hosts[i].admits(user) ==> forall|j: int|
                    0 <= j < hosts.len() && (#[trigger] hosts[j]).names(host) ==> !hosts[j].admits(
                        user,
                    ) && j >= i
            },
            None => forall|j: int|
                0 <= j < hosts.len() ==> !(#[trigger] hosts[j]).names(host),
        },
{
    let n = hosts.len() as int;
    lemma_block(hosts, user, host, true, n);
    lemma_block(hosts, user, host, false, n);
}

/// A block is about the host that its `hostname` says, or without one about
/// its own name, and for the login that its `user` says, or without one for
/// any.
pub proof fn a_block_says_what_it_is_for(
    block: HostModel,
    host: Seq<char>,
    user: Seq<char>,
)
    ensures
        setting(block.config, "hostname"@) == Some(host) ==> block.names(host),
        setting(block.config, "hostname"@) is None && block.alias == host ==> block.names(host),
        block.admits(None),
        setting(block.config, "user"@) is None ==> block.admits(Some(user)),
        setting(block.config, "user"@) is Some ==> (block.admits(Some(user)) <==> setting(
            block.config,
            "user"@,
        ) == Some(user)),
{
}

/// Every other setting comes from the block that is used, and the
/// connection is kept alive over the backend that was chosen.
pub proof fn other_settings_come_from_the_block(
    hosts: Seq<HostModel>,
    fallback: Seq<(Seq<char>, Seq<char>)>,
    user: Option<Seq<char>>,
    host: Seq<char>,
    libssh: bool,
    key: Seq<char>,
)
    requires
        key != "user"@,
        key != "wezterm_ssh_backend"@,
        key != "serveraliveinterval"@,
    ensures
        ({
            let r = config_for(hosts, fallback, user, host, libssh);
            &&& setting(r, key) == match chosen_block(hosts, user, host) {
                Some(i) => setting(hosts[i].config, key),
                None => setting(fallback, key),
            }
            &&& setting(r, "serveraliveinterval"@) == Some("15"@)
            &&& setting(r, "wezterm_ssh_backend"@) == Some(
                if libssh {
                    "libssh"@
                } else {
                    "ssh2"@
                },
            )
        }),
{
    reveal_strlit("wezterm_ssh_backend");
    reveal_strlit("serveraliveinterval");
    let base = match chosen_block(hosts, user, host) {
        Some(i) => hosts[i].config,
        None => fallback,
    };
    let own = match user {
        Some(u) => with_setting(base, "user"@, u),
        None => base,
    };
    let backend = if libssh {
        "libssh"@
    } else {
        "ssh2"@
    };
    assert("wezterm_ssh_backend"@[0] != "serveraliveinterval"@[0]);
    let more = with_setting(own, "wezterm_ssh_backend"@, backend);
    if let Some(u) = user {
        a_setting_reads_back(base, "user"@, u, key);
    }
    a_setting_reads_back(own, "wezterm_ssh_backend"@, backend, key);
    a_setting_reads_back(own, "wezterm_ssh_backend"@, backend, "wezterm_ssh_backend"@);
    a_setting_reads_back(more, "serveraliveinterval"@, "15"@, key);
    a_setting_reads_back(more, "serveraliveinterval"@, "15"@, "wezterm_ssh_backend"@);
    a_setting_reads_back(more, "serveraliveinterval"@, "15"@, "serveraliveinterval"@);
}

/// A password that was typed and worked is remembered for its target, and
/// answers the next handshake to it without asking, once for every prompt.
pub proof fn a_working_password_answers_the_next_handshake(
    m: HandshakeModel,
    next: HandshakeModel,
    store: StoreModel,
    password: Seq<char>,
    username: Seq<char>,
    prompts: Seq<Seq<char>>,
)
    requires
        password.len() > 0,
        next.target == m.target,
    ensures
        ({
            let (_, kept, step) = m.typed(Some(password)).after(store, SessionModel::Authenticated);
            let (_, _, answer) = next.after(
                kept,
                SessionModel::Authenticate { username, prompts },
            );
            &&& step is Done
            &&& match answer {
                StepModel::Answer(list) => (list.len() == prompts.len() || (prompts.len() == 0
                    && list.len() == 1)) && forall|i: int|
                    0 <= i < list.len() ==> #[trigger] list[i] == password,
                _ => false,
            }
        }),
{
}

/// Only the user trusts an unknown host where there is a user, and asks for
/// a password are asks of that user under the name that the server gave; a
/// session is done exactly when it says so, and any failure is told.
pub proof fn the_handshake_follows_the_session(
    m: HandshakeModel,
    store: StoreModel,
    message: Seq<char>,
    username: Seq<char>,
    prompts: Seq<Seq<char>>,
    event: SessionModel,
)
    ensures
        m.interactive ==> m.after(store, SessionModel::HostVerify { message }).2 == (
        StepModel::AskTrust { message }),
        !m.interactive ==> m.after(store, SessionModel::HostVerify { message }).2 is Trust,
        m.interactive && store.password(m.target) is None ==> match m.after(
            store,
            SessionModel::Authenticate { username, prompts },
        ).2 {
            StepModel::AskPassword { username: asked, .. } => asked == username,
            _ => false,
        },
        m.after(store, event).2 is Done <==> event is Authenticated,
        m.after(store, event).2 is Trust ==> !m.interactive && event is HostVerify,
        m.after(store, event).0.target == m.target,
        m.after(store, event).1.sessions == store.sessions,
        event is Error || event is Closed || event is TimedOut || event is HostVerificationFailed
            ==> m.after(store, event).2 is Fail,
        event is Banner ==> m.after(store, event) == (m, store, StepModel::Wait),
        m.typed(None) == m,
{
}

} // verus!
