//! Configuration resolution.
//!
//! The configuration is plain line-oriented text. Per line: leading and
//! trailing whitespace is trimmed; blank lines and lines whose first
//! character is `#` are skipped; every other line splits at its first space
//! into a key, matched case-insensitively, and a value, trimmed. Recognized
//! keys update the configuration; unrecognized keys are ignored for forward
//! compatibility. A line without a space is skipped as well, the robust
//! choice for malformed input. Reading the file itself is the caller's
//! concern: this module works on the text alone.

use vstd::prelude::*;

use crate::text::{find_from, lemma_first_index, lemma_no_index, trim_exec, trim_spec};

verus! {

/// Where downstream plugins live and how their filenames are templated.
#[derive(Debug, Clone)]
pub struct Config {
    /// Directory holding the downstream plugin binaries.
    pub dir: String,
    /// Filename template containing the `{py_version}` placeholder.
    pub filename_format: String,
}

/// The mathematical model of a `Config`: both fields as character
/// sequences.
#[verifier::ext_equal]
pub struct ConfigModel {
    pub dir: Seq<char>,
    pub filename_format: Seq<char>,
}

impl View for Config {
    type V = ConfigModel;

    open spec fn view(&self) -> ConfigModel {
        ConfigModel { dir: self.dir@, filename_format: self.filename_format@ }
    }
}

/// The directory used when no configuration sets one.
pub open spec fn default_dir() -> Seq<char> {
    "./libraries"@
}

/// The filename template used when no configuration sets one.
pub open spec fn default_filename_format() -> Seq<char> {
    "python04rel64rspyo3py{py_version}"@
}

/// The configuration value before any line is applied.
pub open spec fn default_model() -> ConfigModel {
    ConfigModel { dir: default_dir(), filename_format: default_filename_format() }
}

impl Default for Config {
    /// The built-in default configuration.
    fn default() -> (c: Config)
        ensures
            c@ == default_model(),
    {
        Config {
            dir: "./libraries".to_owned(),
            filename_format: "python04rel64rspyo3py{py_version}".to_owned(),
        }
    }
}

/// `c` lowercased (ASCII) equals `t`.
pub open spec fn lower_matches(c: char, t: char) -> bool {
    if 'A' <= c && c <= 'Z' {
        c as u32 + 32 == t as u32
    } else {
        c == t
    }
}

/// The key matches the target case-insensitively, character by character.
pub open spec fn key_is(key: Seq<char>, target: Seq<char>) -> bool {
    key.len() == target.len() && forall|i: int|
        0 <= i < key.len() ==> lower_matches(key[i], target[i])
}

/// A line the parser skips: blank after trimming, or a comment.
pub open spec fn line_ignored(line: Seq<char>) -> bool {
    trim_spec(line).len() == 0 || trim_spec(line)[0] == '#'
}

/// The effect of one configuration line on the configuration value.
pub open spec fn line_update(m: ConfigModel, line: Seq<char>) -> ConfigModel {
    let t = trim_spec(line);
    if t.len() == 0 || t[0] == '#' {
        m
    } else {
        match t.index_of_first(' ') {
            None => m,
            Some(i) => {
                let key = trim_spec(t.subrange(0, i));
                let value = trim_spec(t.subrange(i + 1, t.len() as int));
                if key_is(key, "python_plugins_dir"@) {
                    ConfigModel { dir: value, filename_format: m.filename_format }
                } else if key_is(key, "python_filename_format"@) {
                    ConfigModel { dir: m.dir, filename_format: value }
                } else {
                    m
                }
            },
        }
    }
}

/// The lines of a text, split on `'\n'`.
pub open spec fn split_lines(s: Seq<char>) -> Seq<Seq<char>>
    decreases s.len(),
{
    match s.index_of_first('\n') {
        Some(i) => if 0 <= i < s.len() {
            seq![s.subrange(0, i)] + split_lines(s.subrange(i + 1, s.len() as int))
        } else {
            seq![s]
        },
        None => seq![s],
    }
}

/// The configuration value after applying each line in order.
pub open spec fn apply_lines(m: ConfigModel, lines: Seq<Seq<char>>) -> ConfigModel
    decreases lines.len(),
{
    if lines.len() == 0 {
        m
    } else {
        apply_lines(line_update(m, lines[0]), lines.drop_first())
    }
}

/// What parsing a configuration text yields: the defaults, updated by each
/// line in order.
pub open spec fn parse_cfg_spec(s: Seq<char>) -> ConfigModel {
    apply_lines(default_model(), split_lines(s))
}

/// A blank or comment line leaves the configuration unchanged.
pub proof fn lemma_ignored_line_update(m: ConfigModel, line: Seq<char>)
    requires
        line_ignored(line),
    ensures
        line_update(m, line) == m,
{
}

/// Inserting a blank line or a comment line anywhere into a line list,
/// whatever the line's content, never affects the resulting configuration.
pub proof fn lemma_ignored_lines_no_effect(
    m: ConfigModel,
    lines: Seq<Seq<char>>,
    i: int,
    l: Seq<char>,
)
    requires
        0 <= i <= lines.len(),
        line_ignored(l),
    ensures
        apply_lines(m, lines.insert(i, l)) == apply_lines(m, lines),
    decreases lines.len(),
{
    if i == 0 {
        assert(lines.insert(0, l)[0] == l);
        assert(lines.insert(0, l).drop_first() =~= lines);
        lemma_ignored_line_update(m, l);
    } else {
        assert(lines.len() > 0);
        assert(lines.insert(i, l)[0] == lines[0]);
        assert(lines.insert(i, l).drop_first() =~= lines.drop_first().insert(i - 1, l));
        lemma_ignored_lines_no_effect(line_update(m, lines[0]), lines.drop_first(), i - 1, l);
    }
}

/// A single line of text: it contains no newline.
pub open spec fn no_newline(l: Seq<char>) -> bool {
    forall|j: int| 0 <= j < l.len() ==> l[j] != '\n'
}

/// Lines joined back into a text with `'\n'` separators.
pub open spec fn join_lines(ls: Seq<Seq<char>>) -> Seq<char>
    decreases ls.len(),
{
    if ls.len() == 0 {
        Seq::empty()
    } else if ls.len() == 1 {
        ls[0]
    } else {
        ls[0] + seq!['\n'] + join_lines(ls.drop_first())
    }
}

/// Splitting a joined line list recovers the lines, provided each is a
/// single line of text.
pub proof fn lemma_split_join(ls: Seq<Seq<char>>)
    requires
        ls.len() >= 1,
        forall|k: int| 0 <= k < ls.len() ==> no_newline(#[trigger] ls[k]),
    ensures
        split_lines(join_lines(ls)) == ls,
    decreases ls.len(),
{
    if ls.len() == 1 {
        let s = join_lines(ls);
        assert(no_newline(ls[0]));
        lemma_no_index(s, '\n');
        assert(split_lines(s) == seq![s]);
        assert(seq![ls[0]] =~= ls);
    } else {
        let s = join_lines(ls);
        let head = ls[0];
        let rest = ls.drop_first();
        let tail = join_lines(rest);
        let hl = head.len() as int;
        assert(s == head + seq!['\n'] + tail);
        assert(s[hl] == '\n');
        assert(no_newline(head));
        assert(forall|k: int| 0 <= k < hl ==> s[k] == head[k] && s[k] != '\n');
        lemma_first_index(s, '\n', hl);
        assert(s.subrange(0, hl) =~= head);
        assert(s.subrange(hl + 1, s.len() as int) =~= tail);
        assert(forall|k: int| 0 <= k < rest.len() ==> no_newline(#[trigger] rest[k])) by {
            assert(forall|k: int| 0 <= k < rest.len() ==> rest[k] == ls[k + 1]);
        }
        lemma_split_join(rest);
        assert(split_lines(s) == seq![head] + rest);
        assert(seq![head] + rest =~= ls);
    }
}

/// Inserting a blank line or a comment line anywhere among the lines of a
/// configuration text, whatever that line's content, never affects the
/// configuration parsed from the joined text.
pub proof fn lemma_ignored_line_in_text(ls: Seq<Seq<char>>, i: int, l: Seq<char>)
    requires
        ls.len() >= 1,
        forall|k: int| 0 <= k < ls.len() ==> no_newline(#[trigger] ls[k]),
        no_newline(l),
        line_ignored(l),
        0 <= i <= ls.len(),
    ensures
        parse_cfg_spec(join_lines(ls.insert(i, l))) == parse_cfg_spec(join_lines(ls)),
{
    let ls2 = ls.insert(i, l);
    ls.insert_ensures(i, l);
    assert(forall|k: int| 0 <= k < ls2.len() ==> no_newline(#[trigger] ls2[k])) by {
        assert(forall|k: int| 0 <= k < i ==> ls2[k] == ls[k]);
        assert(forall|k: int| i < k < ls2.len() ==> ls2[k] == ls[k - 1]);
        assert(ls2[i] == l);
    }
    lemma_split_join(ls2);
    lemma_split_join(ls);
    lemma_ignored_lines_no_effect(default_model(), ls, i, l);
}

/// Case-insensitive comparison of a key against an all-lowercase target.
fn key_matches(key: &str, target: &str) -> (r: bool)
    ensures
        r == key_is(key@, target@),
{
    let kn = key.unicode_len();
    let tn = target.unicode_len();
    if kn != tn {
        return false;
    }
    let mut i: usize = 0;
    while i < kn
        invariant
            0 <= i <= kn,
            kn == key@.len(),
            tn == target@.len(),
            kn == tn,
            forall|j: int| 0 <= j < i ==> lower_matches(key@[j], target@[j]),
        decreases kn - i,
    {
        let c = key.get_char(i);
        let t = target.get_char(i);
        let ok = if 'A' <= c && c <= 'Z' {
            (c as u32) + 32 == (t as u32)
        } else {
            c == t
        };
        if !ok {
            proof {
                assert(!lower_matches(key@[i as int], target@[i as int]));
            }
            return false;
        }
        i = i + 1;
    }
    true
}

/// Applies one configuration line to the configuration.
fn process_line(cfg: &mut Config, line: &str)
    ensures
        final(cfg)@ == line_update(old(cfg)@, line@),
{
    let t = trim_exec(line);
    let tn = t.unicode_len();
    if tn == 0 {
        return;
    }
    if t.get_char(0) == '#' {
        return;
    }
    match find_from(t, 0, ' ') {
        None => {
            proof {
                lemma_no_index(t@, ' ');
            }
        },
        Some(i) => {
            proof {
                lemma_first_index(t@, ' ', i as int);
            }
            let key = trim_exec(t.substring_char(0, i));
            let value = trim_exec(t.substring_char(i + 1, tn));
            if key_matches(key, "python_plugins_dir") {
                cfg.dir = value.to_owned();
            } else if key_matches(key, "python_filename_format") {
                cfg.filename_format = value.to_owned();
            }
        },
    }
}

/// Parses a configuration text: starts from the defaults and applies each
/// line in order, as `parse_cfg_spec` describes.
pub fn parse_cfg(content: &str) -> (c: Config)
    ensures
        c@ == parse_cfg_spec(content@),
{
    let mut cfg = Config::default();
    let n = content.unicode_len();
    proof {
        assert(content@.subrange(0, n as int) =~= content@);
    }
    let mut st: usize = 0;
    loop
        invariant
            0 <= st <= n,
            n == content@.len(),
            apply_lines(cfg@, split_lines(content@.subrange(st as int, n as int)))
                == parse_cfg_spec(content@),
        decreases n - st,
    {
        let ghost suffix = content@.subrange(st as int, n as int);
        match find_from(content, st, '\n') {
            Some(j) => {
                proof {
                    assert(suffix[j - st] == '\n');
                    assert(forall|k: int| 0 <= k < j - st ==> suffix[k] != '\n');
                    lemma_first_index(suffix, '\n', j - st);
                    assert(suffix.subrange(0, j - st) =~= content@.subrange(
                        st as int,
                        j as int,
                    ));
                    assert(suffix.subrange(j - st + 1, suffix.len() as int) =~= content@
                        .subrange(j as int + 1, n as int));
                    assert(split_lines(suffix) == seq![content@.subrange(st as int, j as int)]
                        + split_lines(content@.subrange(j as int + 1, n as int)));
                }
                let line = content.substring_char(st, j);
                proof {
                    let rest = split_lines(content@.subrange(j as int + 1, n as int));
                    let whole = seq![line@] + rest;
                    assert(whole.drop_first() =~= rest);
                    assert(whole[0] == line@);
                }
                process_line(&mut cfg, line);
                st = j + 1;
            },
            None => {
                proof {
                    assert(forall|k: int| 0 <= k < suffix.len() ==> suffix[k] != '\n');
                    lemma_no_index(suffix, '\n');
                    assert(split_lines(suffix) == seq![suffix]);
                }
                let line = content.substring_char(st, n);
                let ghost m0 = cfg@;
                process_line(&mut cfg, line);
                proof {
                    assert(line@ == suffix);
                    assert(seq![suffix].drop_first() =~= Seq::<Seq<char>>::empty());
                    assert(apply_lines(line_update(m0, suffix), Seq::<Seq<char>>::empty())
                        == line_update(m0, suffix));
                    assert(apply_lines(m0, seq![suffix]) == line_update(m0, suffix));
                    assert(cfg@ == line_update(m0, suffix));
                }
                return cfg;
            },
        }
    }
}

} // verus!
