//! Translations of the interface: a built-in table per language, extended
//! and overridden by a table of the user's, and the English text wherever
//! neither has an entry.

use crate::paths::{home_dir, opt, push_path, pushed};
use crate::text::{cat, same, trim, trimmed};
use vstd::hash_map::StringHashMap;
use vstd::prelude::*;
use vstd::string::*;

verus! {

/// What a TOML document holds at its top level: the keys in the order in
/// which the parser gives them, each with its text where it is a string;
/// nothing where the document cannot be parsed.
pub uninterp spec fn toml_table(text: Seq<char>) -> Option<Seq<(Seq<char>, Option<Seq<char>>)>>;

/// A parsed table, with its texts as characters.
pub open spec fn toml_view(r: Option<Vec<(String, Option<String>)>>) -> Option<
    Seq<(Seq<char>, Option<Seq<char>>)>,
> {
    match r {
        Some(v) => Some(entries_of(v@)),
        None => None,
    }
}

pub open spec fn entries_of(v: Seq<(String, Option<String>)>) -> Seq<
    (Seq<char>, Option<Seq<char>>),
> {
    v.map_values(|p: (String, Option<String>)| (p.0@, opt(p.1)))
}

/// No key occurs twice.
pub open spec fn distinct_keys(entries: Seq<(Seq<char>, Option<Seq<char>>)>) -> bool {
    forall|i: int, j: int|
        0 <= i < j < entries.len() ==> (#[trigger] entries[i]).0 != (#[trigger] entries[j]).0
}

/// A document in which no key occurs twice, if it could be parsed.
pub open spec fn distinct_doc(doc: Option<Seq<(Seq<char>, Option<Seq<char>>)>>) -> bool {
    match doc {
        Some(e) => distinct_keys(e),
        None => true,
    }
}

/// `str::parse` into `toml::Value`: the entries of the document's top
/// level, each value as its text where it is a string. What the grammar
/// makes of a text is left to the name. A parsed table is a map, so each
/// key comes out once.
#[verifier::external_body]
fn parse_toml(text: &str) -> (r: Option<Vec<(String, Option<String>)>>)
    ensures
        toml_view(r) == toml_table(text@),
        distinct_doc(toml_view(r)),
{
    match text.parse::<toml::Value>() {
        Ok(toml::Value::Table(t)) => Some(
            t.into_iter().map(|(k, v)| (k, v.as_str().map(|s| s.to_string()))).collect(),
        ),
        Ok(_) => None,
        Err(_) => None,
    }
}

/// Translations by their English text.
pub struct Table {
    entries: StringHashMap<String>,
}

impl View for Table {
    type V = Map<Seq<char>, Seq<char>>;

    closed spec fn view(&self) -> Map<Seq<char>, Seq<char>> {
        Map::new(
            |k: Seq<char>| self.entries@.contains_key(k),
            |k: Seq<char>| self.entries@[k]@,
        )
    }
}

impl Table {
    pub fn new() -> (r: Self)
        ensures
            r@ == Map::<Seq<char>, Seq<char>>::empty(),
    {
        let r = Table { entries: StringHashMap::new() };
        proof {
            assert(r@ =~= Map::<Seq<char>, Seq<char>>::empty());
        }
        r
    }

    /// The translation of a text.
    pub fn get(&self, source: &str) -> (r: Option<&String>)
        ensures
            match r {
                Some(t) => self@.contains_key(source@) && self@[source@] == t@,
                None => !self@.contains_key(source@),
            },
    {
        self.entries.get(source)
    }

    pub fn contains_key(&self, source: &str) -> (r: bool)
        ensures
            r == self@.contains_key(source@),
    {
        self.entries.contains_key(source)
    }

    /// There are no translations.
    pub fn is_empty(&self) -> (r: bool)
        ensures
            r == (self@ == Map::<Seq<char>, Seq<char>>::empty()),
    {
        let r = self.entries.is_empty();
        proof {
            if r {
                assert(self@ =~= Map::<Seq<char>, Seq<char>>::empty());
            } else {
                let k = choose|k: Seq<char>| self.entries@.dom().contains(k);
                if forall|k: Seq<char>| !self.entries@.dom().contains(k) {
                    assert(self.entries@.dom() =~= Set::empty());
                }
                assert(self@.contains_key(k));
            }
        }
        r
    }

    /// Number of translations.
    pub fn len(&self) -> (r: usize)
        ensures
            r == self@.len(),
    {
        proof {
            assert(self@.dom() =~= self.entries@.dom());
        }
        self.entries.len()
    }

    fn put(&mut self, source: String, translated: String)
        ensures
            final(self)@ == old(self)@.insert(source@, translated@),
    {
        let ghost before = self@;
        self.entries.insert(source, translated);
        proof {
            assert(self@ =~= before.insert(source@, translated@));
        }
    }
}

/// An entry worth having: neither side of it is blank.
pub open spec fn usable(e: (Seq<char>, Option<Seq<char>>)) -> bool {
    trim(e.0).len() > 0 && match e.1 {
        Some(t) => trim(t).len() > 0,
        None => false,
    }
}

/// A table with the first `n` entries taken over.
pub open spec fn merged(
    m: Map<Seq<char>, Seq<char>>,
    entries: Seq<(Seq<char>, Option<Seq<char>>)>,
    n: int,
) -> Map<Seq<char>, Seq<char>>
    decreases n,
{
    if n <= 0 {
        m
    } else {
        let before = merged(m, entries, n - 1);
        if usable(entries[n - 1]) {
            before.insert(entries[n - 1].0, entries[n - 1].1->0)
        } else {
            before
        }
    }
}

/// A table with a parsed document taken over.
pub open spec fn merged_with(
    m: Map<Seq<char>, Seq<char>>,
    doc: Option<Seq<(Seq<char>, Option<Seq<char>>)>>,
) -> Map<Seq<char>, Seq<char>> {
    match doc {
        Some(e) => merged(m, e, e.len() as int),
        None => m,
    }
}

/// Take over the entries of a parsed document; one that could not be parsed
/// changes nothing.
pub fn merge_entries(
    table: &mut Table,
    doc: Option<Vec<(String, Option<String>)>>,
)
    ensures
        final(table)@ == merged_with(old(table)@, toml_view(doc)),
{
    let entries = match doc {
        Some(entries) => entries,
        None => return,
    };
    let ghost start = table@;
    let ghost list = entries_of(entries@);
    let n: usize = entries.len();
    let mut i: usize = 0;
    while i < n
        invariant
            i <= n == entries@.len(),
            list == entries_of(entries@),
            table@ == merged(start, list, i as int),
        decreases n - i,
    {
        proof {
            assert(list[i as int] == (entries@[i as int].0@, opt(entries@[i as int].1)));
        }
        if let Some(translated) = &entries[i].1 {
            if !trimmed(entries[i].0.as_str()).as_str().is_empty() && !trimmed(
                translated.as_str(),
            ).as_str().is_empty() {
                table.put(entries[i].0.clone(), translated.clone());
            }
        }
        i += 1;
    }
}

/// Take over the entries of a translation file.
pub fn merge(table: &mut Table, text: &str)
    ensures
        final(table)@ == merged_with(old(table)@, toml_table(text@)),
        distinct_doc(toml_table(text@)),
{
    merge_entries(table, parse_toml(text));
}

/// A translation file can be parsed.
pub fn is_readable(text: &str) -> (r: bool)
    ensures
        r == (toml_table(text@) is Some),
{
    parse_toml(text).is_some()
}

/// Name of the built-in table for a language.
pub open spec fn bundled_name(locale: Seq<char>) -> Option<Seq<char>> {
    if locale == "zh-CN"@ || locale == "zh"@ || locale == "zh-Hans"@ {
        Some("zh-CN"@)
    } else {
        None
    }
}

/// Name of the built-in table for a language, if there is one.
pub fn bundled(locale: &str) -> (r: Option<String>)
    ensures
        opt(r) == bundled_name(locale@),
{
    if same(locale, "zh-CN") || same(locale, "zh") || same(locale, "zh-Hans") {
        Some("zh-CN".to_owned())
    } else {
        None
    }
}

/// The translations for a language, from its built-in table and the user's.
pub open spec fn loaded(
    locale: Seq<char>,
    builtin: Option<Seq<(Seq<char>, Option<Seq<char>>)>>,
    user: Option<Seq<(Seq<char>, Option<Seq<char>>)>>,
) -> Map<Seq<char>, Seq<char>> {
    if trim(locale).len() == 0 {
        Map::empty()
    } else {
        merged_with(
            merged_with(
                Map::empty(),
                if bundled_name(trim(locale)) is Some {
                    builtin
                } else {
                    None
                },
            ),
            user,
        )
    }
}

/// The usable entries of a document have something for `source`.
pub open spec fn has_entry(doc: Seq<(Seq<char>, Option<Seq<char>>)>, source: Seq<char>) -> bool {
    exists|i: int| 0 <= i < doc.len() && usable(#[trigger] doc[i]) && doc[i].0 == source
}

/// `m` is `base` with the usable entries of a document in place of its own,
/// and nothing else; it is `base` where the document could not be parsed.
pub open spec fn overrides(
    m: Map<Seq<char>, Seq<char>>,
    base: Map<Seq<char>, Seq<char>>,
    doc: Option<Seq<(Seq<char>, Option<Seq<char>>)>>,
) -> bool {
    match doc {
        Some(e) => {
            &&& forall|i: int|
                0 <= i < e.len() && usable(#[trigger] e[i]) ==> m.contains_key(e[i].0) && Some(
                    m[e[i].0],
                ) == e[i].1
            &&& forall|k: Seq<char>|
                !#[trigger] has_entry(e, k) ==> m.contains_key(k) == base.contains_key(k) && (
                m.contains_key(k) ==> m[k] == base[k])
        },
        None => m == base,
    }
}

/// Load the built-in table and the user's, the latter first in rank.
/// `builtin` is the text of the built-in table, used where the language has
/// one; `user` is the text of the user's table, where it could be read.
pub fn load_table(locale: &str, builtin: &str, user: Option<&str>) -> (r: Table)
    ensures
        r@ == loaded(
            locale@,
            toml_table(builtin@),
            match user {
                Some(t) => toml_table(t@),
                None => None,
            },
        ),
        trim(locale@).len() > 0 ==> match user {
            Some(t) => overrides(
                r@,
                loaded(locale@, toml_table(builtin@), None),
                toml_table(t@),
            ),
            None => r@ == loaded(locale@, toml_table(builtin@), None),
        },
{
    let mut table = Table::new();
    let name = trimmed(locale);
    if name.as_str().is_empty() {
        return table;
    }
    if bundled(name.as_str()).is_some() {
        merge(&mut table, builtin);
    }
    if let Some(text) = user {
        merge(&mut table, text);
        proof {
            a_user_table_overrides(locale@, toml_table(builtin@), toml_table(text@));
        }
    }
    table
}

/// The language to use: the configured one, or that of the environment
/// where none is configured.
pub fn choose_locale(configured: &str, environment: Option<String>) -> (r: String)
    ensures
        r@ == if trim(configured@).len() == 0 {
            match environment {
                Some(e) => e@,
                None => Seq::empty(),
            }
        } else {
            configured@
        },
{
    if trimmed(configured).as_str().is_empty() {
        match environment {
            Some(e) => e,
            None => String::new(),
        }
    } else {
        configured.to_owned()
    }
}

/// Where the user's table for a language lies: below the home directory,
/// and nowhere without one.
pub open spec fn user_table(home: Option<Seq<char>>, locale: Seq<char>) -> Option<Seq<char>> {
    match home {
        Some(h) => Some(pushed(pushed(h, ".config/kaku/i18n"@), locale + ".toml"@)),
        None => None,
    }
}

/// Where the user's table for a language lies, given the home directory if
/// there is one.
pub fn user_table_path_from(home: Option<String>, locale: &str) -> (r: Option<String>)
    ensures
        opt(r) == user_table(opt(home), locale@),
{
    match home {
        Some(h) => {
            let dir = push_path(h.as_str(), ".config/kaku/i18n");
            let file = cat(locale, ".toml");
            Some(push_path(dir.as_str(), file.as_str()))
        },
        None => None,
    }
}

/// [user_table_path_from] with the home directory of the running account.
/// There is a path exactly where that directory is known.
pub fn user_table_path(locale: &str) -> (r: Option<String>)
    ensures
        exists|home: Option<Seq<char>>| opt(r) == #[trigger] user_table(home, locale@),
{
    let home = home_dir();
    let ghost h = opt(home);
    let r = user_table_path_from(home, locale);
    proof {
        assert(opt(r) == user_table(h, locale@));
    }
    r
}

/// There is anything to translate with.
pub fn enabled(table: &Table) -> (r: bool)
    ensures
        r == (table@ != Map::<Seq<char>, Seq<char>>::empty()),
{
    !table.is_empty()
}

/// What a text of the interface reads in the current language.
pub open spec fn translated(m: Map<Seq<char>, Seq<char>>, source: Seq<char>) -> Seq<char> {
    if m.contains_key(source) {
        m[source]
    } else {
        source
    }
}

/// The current language's text for an English one; the English text itself
/// where there is no translation.
pub fn tr(table: &Table, source: &str) -> (r: String)
    ensures
        r@ == translated(table@, source@),
{
    match table.get(source) {
        Some(t) => t.clone(),
        None => source.to_owned(),
    }
}

/// Label printed at the top of a user-authored message.
pub fn header_user(table: &Table) -> (r: String)
    ensures
        r@ == translated(table@, "  You"@),
{
    tr(table, "  You")
}

/// Label printed at the top of an assistant-authored message.
pub fn header_assistant(table: &Table) -> (r: String)
    ensures
        r@ == translated(table@, "  AI"@),
{
    tr(table, "  AI")
}

/// Title shown by the system notification when an approval is required and
/// the window is unfocused.
pub fn approval_notification_title(table: &Table) -> (r: String)
    ensures
        r@ == translated(table@, "Kaku AI needs confirmation"@),
{
    tr(table, "Kaku AI needs confirmation")
}

/// Title shown by the system notification when a chat task finishes while
/// the window is unfocused.
pub fn task_complete_notification_title(table: &Table) -> (r: String)
    ensures
        r@ == translated(table@, "Kaku AI task complete"@),
{
    tr(table, "Kaku AI task complete")
}

/// Body shown by the task-complete system notification.
pub fn task_complete_notification_body(table: &Table) -> (r: String)
    ensures
        r@ == translated(table@, "The AI has finished responding."@),
{
    tr(table, "The AI has finished responding.")
}

/// Without a language everything stays English: nothing is loaded, and no
/// text reads otherwise.
pub proof fn without_a_language_all_is_english(
    locale: Seq<char>,
    builtin: Option<Seq<(Seq<char>, Option<Seq<char>>)>>,
    user: Option<Seq<(Seq<char>, Option<Seq<char>>)>>,
    source: Seq<char>,
)
    requires
        trim(locale).len() == 0,
    ensures
        translated(loaded(locale, builtin, user), source) == source,
{
}

/// An entry of the user's table is what the interface shows, whatever the
/// built-in table has for it; the last entry for a text counts.
pub proof fn user_entries_win(
    locale: Seq<char>,
    builtin: Option<Seq<(Seq<char>, Option<Seq<char>>)>>,
    user: Seq<(Seq<char>, Option<Seq<char>>)>,
    i: int,
)
    requires
        trim(locale).len() > 0,
        0 <= i < user.len(),
        usable(user[i]),
        forall|j: int| i < j < user.len() && usable(#[trigger] user[j]) ==> user[j].0 != user[i].0,
    ensures
        translated(loaded(locale, builtin, Some(user)), user[i].0) == user[i].1->0,
{
    let base = loaded(locale, builtin, None);
    lemma_merged_keeps(merged(base, user, i + 1), user, user[i].0, i + 1, user.len() as int);
    lemma_merged_splits(base, user, i + 1, user.len() as int);
}

/// A text that the user's table says nothing about reads as it did before.
pub proof fn other_entries_stay(
    locale: Seq<char>,
    builtin: Option<Seq<(Seq<char>, Option<Seq<char>>)>>,
    user: Seq<(Seq<char>, Option<Seq<char>>)>,
    source: Seq<char>,
)
    requires
        trim(locale).len() > 0,
        forall|j: int| 0 <= j < user.len() && usable(#[trigger] user[j]) ==> user[j].0 != source,
    ensures
        translated(loaded(locale, builtin, Some(user)), source) == translated(
            loaded(locale, builtin, None),
            source,
        ),
{
    let base = loaded(locale, builtin, None);
    lemma_merged_keeps(base, user, source, 0, user.len() as int);
    lemma_merged_splits(base, user, 0, user.len() as int);
}

/// The user's table overrides and extends the built-in one: what it has a
/// translation for reads as it says, everything else as before, and nothing
/// else is translated. A document that cannot be parsed changes nothing.
pub proof fn a_user_table_overrides(
    locale: Seq<char>,
    builtin: Option<Seq<(Seq<char>, Option<Seq<char>>)>>,
    user: Option<Seq<(Seq<char>, Option<Seq<char>>)>>,
)
    requires
        trim(locale).len() > 0,
        distinct_doc(user),
    ensures
        overrides(loaded(locale, builtin, user), loaded(locale, builtin, None), user),
{
    let base = loaded(locale, builtin, None);
    let m = loaded(locale, builtin, user);
    if let Some(e) = user {
        let n = e.len() as int;
        assert forall|i: int| 0 <= i < e.len() && usable(#[trigger] e[i]) implies m.contains_key(
            e[i].0,
        ) && Some(m[e[i].0]) == e[i].1 by {
            lemma_merged_keeps(merged(base, e, i + 1), e, e[i].0, i + 1, n);
            lemma_merged_splits(base, e, i + 1, n);
        }
        assert forall|k: Seq<char>| !#[trigger] has_entry(e, k) implies m.contains_key(k)
            == base.contains_key(k) && (m.contains_key(k) ==> m[k] == base[k]) by {
            lemma_merged_keeps(base, e, k, 0, n);
            lemma_merged_splits(base, e, 0, n);
        }
    }
}

/// Entries from `from` up to `n` taken over.
spec fn merged_range(
    m: Map<Seq<char>, Seq<char>>,
    entries: Seq<(Seq<char>, Option<Seq<char>>)>,
    from: int,
    n: int,
) -> Map<Seq<char>, Seq<char>>
    decreases n - from,
{
    if n <= from {
        m
    } else {
        let before = merged_range(m, entries, from, n - 1);
        if usable(entries[n - 1]) {
            before.insert(entries[n - 1].0, entries[n - 1].1->0)
        } else {
            before
        }
    }
}

proof fn lemma_merged_splits(
    m: Map<Seq<char>, Seq<char>>,
    entries: Seq<(Seq<char>, Option<Seq<char>>)>,
    from: int,
    n: int,
)
    requires
        0 <= from <= n,
    ensures
        merged(m, entries, n) == merged_range(merged(m, entries, from), entries, from, n),
    decreases n - from,
{
    if from < n {
        lemma_merged_splits(m, entries, from, n - 1);
    }
}

proof fn lemma_merged_keeps(
    m: Map<Seq<char>, Seq<char>>,
    entries: Seq<(Seq<char>, Option<Seq<char>>)>,
    source: Seq<char>,
    from: int,
    n: int,
)
    requires
        0 <= from <= n <= entries.len(),
        forall|j: int| from <= j < n && usable(#[trigger] entries[j]) ==> entries[j].0 != source,
    ensures
        merged_range(m, entries, from, n).contains_key(source) == m.contains_key(source),
        merged_range(m, entries, from, n)[source] == m[source],
    decreases n - from,
{
    if from < n {
        lemma_merged_keeps(m, entries, source, from, n - 1);
    }
}

} // verus!
