//! Settings for test databases: real environment variables come first, then
//! the settings file, then a fallback.
use vstd::prelude::*;

use crate::text;

verus! {

/// What a line of a settings file sets: a key and a value around the first
/// `=`. Blank lines, comments and lines without `=` set nothing.
pub open spec fn setting(line: Seq<char>) -> Option<(Seq<char>, Seq<char>)> {
    let t = text::trimmed(line);
    let i = text::first_index(t, '=');
    if t.len() == 0 || t[0] == '#' || i >= t.len() {
        None
    } else {
        Some((text::trimmed(t.take(i)), text::trimmed(t.skip(i + 1))))
    }
}

/// What the lines of a settings file set; a later line overrides an earlier
/// one.
pub open spec fn settings(lines: Seq<Seq<char>>) -> Map<Seq<char>, Seq<char>>
    decreases lines.len(),
{
    if lines.len() == 0 {
        Map::empty()
    } else {
        match setting(lines.last()) {
            Some((key, value)) => settings(lines.drop_last()).insert(key, value),
            None => settings(lines.drop_last()),
        }
    }
}

/// One variable.
#[derive(Debug, Clone)]
struct EnvVar {
    key: String,
    value: String,
}

spec fn var_map(entries: Seq<EnvVar>) -> Map<Seq<char>, Seq<char>>
    decreases entries.len(),
{
    if entries.len() == 0 {
        Map::empty()
    } else {
        var_map(entries.drop_last()).insert(entries.last().key@, entries.last().value@)
    }
}

/// Variables with their values.
#[derive(Debug, Clone)]
pub struct EnvVars {
    entries: Vec<EnvVar>,
}

impl View for EnvVars {
    type V = Map<Seq<char>, Seq<char>>;

    closed spec fn view(&self) -> Map<Seq<char>, Seq<char>> {
        var_map(self.entries@)
    }
}

impl EnvVars {
    /// No variables.
    pub fn new() -> (r: EnvVars)
        ensures
            r@ == Map::<Seq<char>, Seq<char>>::empty(),
    {
        EnvVars { entries: Vec::new() }
    }

    /// Sets a variable.
    pub fn set(&mut self, key: String, value: String)
        ensures
            final(self)@ == old(self)@.insert(key@, value@),
    {
        let ghost before = self.entries@;
        self.entries.push(EnvVar { key, value });
        assert(self.entries@.drop_last() =~= before);
    }

    /// The value of a variable, where it is set.
    pub fn get(&self, key: &str) -> (r: Option<String>)
        ensures
            match r {
                Some(value) => self@.contains_key(key@) && self@[key@] == value@,
                None => !self@.contains_key(key@),
            },
    {
        let ghost all = self.entries@;
        let mut i: usize = self.entries.len();
        assert(all.take(i as int) =~= all);
        while i > 0
            invariant
                all == self.entries@,
                i <= all.len(),
                var_map(all).contains_key(key@) <==> var_map(all.take(i as int)).contains_key(key@),
                var_map(all).contains_key(key@) ==> var_map(all)[key@] == var_map(
                    all.take(i as int),
                )[key@],
            decreases i,
        {
            i = i - 1;
            assert(all.take(i + 1).last() == all[i as int]);
            assert(all.take(i + 1).drop_last() =~= all.take(i as int));
            if text::same_text(self.entries[i].key.as_str(), key) {
                return Some(self.entries[i].value.clone());
            }
        }
        None
    }

    /// The variables that a settings file sets.
    pub fn parse(contents: &str) -> (r: EnvVars)
        ensures
            r@ == settings(text::split_on(contents@, '\n')),
    {
        let chars = text::chars_of(contents);
        let lines = text::split(chars.as_slice(), '\n');
        let ghost all = text::slices(lines@);
        let mut vars = EnvVars::new();
        for i in 0..lines.len()
            invariant
                all == text::slices(lines@),
                vars@ == settings(all.take(i as int)),
        {
            assert(all.take(i + 1).drop_last() =~= all.take(i as int));
            assert(all.take(i + 1).last() == lines@[i as int]@);
            let line = text::trim(lines[i]);
            if line.len() > 0 && line[0] != '#' {
                if let Some(at) = text::find_char(line, '=') {
                    let key = vstd::slice::slice_subrange(line, 0, at);
                    let value = vstd::slice::slice_subrange(line, at + 1, line.len());
                    assert(key@ =~= line@.take(at as int));
                    assert(value@ =~= line@.skip(at + 1));
                    vars.set(text::string_of(text::trim(key)), text::string_of(text::trim(value)));
                }
            }
        }
        assert(all.take(lines@.len() as int) =~= all);
        vars
    }
}

/// Where settings come from.
#[derive(Debug, Clone)]
pub struct TestEnv {
    /// Real environment variables.
    pub overrides: EnvVars,
    /// The settings file.
    pub file: EnvVars,
}

impl TestEnv {
    /// The value of a setting: the environment variable where it is set, else
    /// what the file says, else the fallback.
    pub open spec fn lookup(self, key: Seq<char>, default: Seq<char>) -> Seq<char> {
        if self.overrides@.contains_key(key) {
            self.overrides@[key]
        } else if self.file@.contains_key(key) {
            self.file@[key]
        } else {
            default
        }
    }
}

/// The value of a setting.
pub fn var(env: &TestEnv, key: &str, default: &str) -> (r: String)
    ensures
        r@ == env.lookup(key@, default@),
{
    match env.overrides.get(key) {
        Some(value) => value,
        None => match env.file.get(key) {
            Some(value) => value,
            None => default.to_string(),
        },
    }
}

pub fn pg_tag(env: &TestEnv) -> (r: String)
    ensures
        r@ == env.lookup("DDBCORE_TEST_PG_TAG"@, "16-alpine"@),
{
    var(env, "DDBCORE_TEST_PG_TAG", "16-alpine")
}

pub fn pg_database(env: &TestEnv) -> (r: String)
    ensures
        r@ == env.lookup("DDBCORE_TEST_PG_DATABASE"@, "postgres"@),
{
    var(env, "DDBCORE_TEST_PG_DATABASE", "postgres")
}

pub fn pg_user(env: &TestEnv) -> (r: String)
    ensures
        r@ == env.lookup("DDBCORE_TEST_PG_USER"@, "postgres"@),
{
    var(env, "DDBCORE_TEST_PG_USER", "postgres")
}

pub fn pg_password(env: &TestEnv) -> (r: String)
    ensures
        r@ == env.lookup("DDBCORE_TEST_PG_PASSWORD"@, "postgres"@),
{
    var(env, "DDBCORE_TEST_PG_PASSWORD", "postgres")
}

pub fn mariadb_tag(env: &TestEnv) -> (r: String)
    ensures
        r@ == env.lookup("DDBCORE_TEST_MARIADB_TAG"@, "11.3"@),
{
    var(env, "DDBCORE_TEST_MARIADB_TAG", "11.3")
}

pub fn mariadb_database(env: &TestEnv) -> (r: String)
    ensures
        r@ == env.lookup("DDBCORE_TEST_MARIADB_DATABASE"@, "ddbcore_test"@),
{
    var(env, "DDBCORE_TEST_MARIADB_DATABASE", "ddbcore_test")
}

pub fn mariadb_root_password(env: &TestEnv) -> (r: String)
    ensures
        r@ == env.lookup("DDBCORE_TEST_MARIADB_ROOT_PASSWORD"@, "ddbcore"@),
{
    var(env, "DDBCORE_TEST_MARIADB_ROOT_PASSWORD", "ddbcore")
}

/// A line that sets a value sets that value: what stands in front of the first
/// `=` is the key, what stands behind it the value, without the whitespace
/// around them. A comment and a line without `=` set nothing.
pub proof fn lemma_setting(key: Seq<char>, value: Seq<char>, line: Seq<char>)
    requires
        key.len() > 0,
        key[0] != '#',
        !key.contains('='),
        !text::is_space(key[0]),
        !text::is_space(key.last()),
        value.len() > 0,
        !text::is_space(value[0]),
        !text::is_space(value.last()),
    ensures
        setting(key + seq!['='] + value) == Some((key, value)),
        setting(key + seq![' ', '=', ' '] + value) == Some((key, value)),
        setting(seq!['#'] + line) is None,
        !line.contains('=') ==> setting(line) is None,
{
    let plain = key + seq!['='] + value;
    let spaced = key + seq![' ', '=', ' '] + value;
    assert(text::trimmed_start(key) == key);
    assert(text::trimmed_end(key) == key);
    assert(text::trimmed_start(value) == value);
    assert(text::trimmed_end(value) == value);
    assert(plain[0] == key[0] && plain.last() == value.last());
    assert(spaced[0] == key[0] && spaced.last() == value.last());
    assert(text::trimmed_start(plain) == plain);
    assert(text::trimmed_end(plain) == plain);
    assert(text::trimmed_start(spaced) == spaced);
    assert(text::trimmed_end(spaced) == spaced);
    assert forall|k: int| 0 <= k < key.len() implies plain[k] != '=' && spaced[k] != '=' by {
        assert(plain[k] == key[k] && spaced[k] == key[k]);
        assert(key.contains(key[k]));
    }
    text::lemma_first_index_is(plain, '=', key.len() as int);
    assert(plain.take(key.len() as int) =~= key);
    assert(plain.skip(key.len() as int + 1) =~= value);
    assert(spaced[key.len() as int] == ' ');
    text::lemma_first_index_is(spaced, '=', key.len() as int + 1);
    let front = key + seq![' '];
    let back = seq![' '] + value;
    assert(spaced.take(key.len() as int + 1) =~= front);
    assert(spaced.skip(key.len() as int + 2) =~= back);
    assert(text::is_space(' '));
    assert(front[0] == key[0] && front.last() == ' ' && front.drop_last() =~= key);
    assert(text::trimmed_start(front) == front);
    assert(text::trimmed_end(front) == text::trimmed_end(key));
    assert(back[0] == ' ' && back.drop_first() =~= value);
    assert(text::trimmed_start(back) == text::trimmed_start(value));
    let comment = seq!['#'] + line;
    assert(comment[0] == '#');
    assert(text::trimmed_start(comment) == comment);
    lemma_trimmed_end_keeps_first(comment);
    if !line.contains('=') {
        lemma_trimmed_holds_no(line, '=');
        let t = text::trimmed(line);
        text::lemma_first_index(t, '=');
        if text::first_index(t, '=') < t.len() {
            assert(t.contains(t[text::first_index(t, '=')]));
        }
    }
}

proof fn lemma_trimmed_end_keeps_first(s: Seq<char>)
    requires
        s.len() > 0,
        !text::is_space(s[0]),
    ensures
        text::trimmed_end(s).len() > 0,
        text::trimmed_end(s)[0] == s[0],
    decreases s.len(),
{
    if text::is_space(s.last()) {
        assert(s.len() > 1);
        lemma_trimmed_end_keeps_first(s.drop_last());
    }
}

proof fn lemma_trimmed_holds_no(s: Seq<char>, c: char)
    requires
        !s.contains(c),
    ensures
        !text::trimmed(s).contains(c),
{
    lemma_start_holds_no(s, c);
    lemma_end_holds_no(text::trimmed_start(s), c);
}

proof fn lemma_start_holds_no(s: Seq<char>, c: char)
    requires
        !s.contains(c),
    ensures
        !text::trimmed_start(s).contains(c),
    decreases s.len(),
{
    if s.len() > 0 && text::is_space(s[0]) {
        assert(!s.drop_first().contains(c)) by {
            if s.drop_first().contains(c) {
                let i = choose|i: int| 0 <= i < s.drop_first().len() && s.drop_first()[i] == c;
                assert(s[i + 1] == c);
            }
        }
        lemma_start_holds_no(s.drop_first(), c);
    }
}

proof fn lemma_end_holds_no(s: Seq<char>, c: char)
    requires
        !s.contains(c),
    ensures
        !text::trimmed_end(s).contains(c),
    decreases s.len(),
{
    if s.len() > 0 && text::is_space(s.last()) {
        assert(!s.drop_last().contains(c)) by {
            if s.drop_last().contains(c) {
                let i = choose|i: int| 0 <= i < s.drop_last().len() && s.drop_last()[i] == c;
                assert(s[i] == c);
            }
        }
        lemma_end_holds_no(s.drop_last(), c);
    }
}

/// The last line that sets a key decides its value, and no other key is
/// touched.
pub proof fn lemma_last_setting_decides(
    lines: Seq<Seq<char>>,
    line: Seq<char>,
    key: Seq<char>,
    value: Seq<char>,
    other: Seq<char>,
)
    requires
        setting(line) == Some((key, value)),
        other != key,
    ensures
        settings(lines.push(line)).contains_key(key),
        settings(lines.push(line))[key] == value,
        settings(lines.push(line)).contains_key(other) == settings(lines).contains_key(other),
        settings(lines).contains_key(other) ==> settings(lines.push(line))[other] == settings(
            lines,
        )[other],
{
    assert(lines.push(line).drop_last() =~= lines);
}

/// The environment goes before the file, and the file before the fallback.
pub proof fn lemma_environment_comes_first(env: TestEnv, key: Seq<char>, default: Seq<char>)
    ensures
        env.overrides@.contains_key(key) ==> env.lookup(key, default) == env.overrides@[key],
        !env.overrides@.contains_key(key) && env.file@.contains_key(key) ==> env.lookup(
            key,
            default,
        ) == env.file@[key],
        !env.overrides@.contains_key(key) && !env.file@.contains_key(key) ==> env.lookup(
            key,
            default,
        ) == default,
{
}

} // verus!
