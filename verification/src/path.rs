//! Plugin path building: substituting the version token into the filename
//! template and joining the result onto the configured directory. A pure
//! text transformation; no existence check is made here.

use vstd::prelude::*;

use crate::cfg::{Config, ConfigModel};

verus! {

/// `s` with every occurrence of `pat` replaced by `rep`, scanning left to
/// right without overlap.
pub open spec fn replace_spec(s: Seq<char>, pat: Seq<char>, rep: Seq<char>) -> Seq<char>
    decreases s.len(),
{
    if pat.len() == 0 || s.len() < pat.len() {
        s
    } else if s.subrange(0, pat.len() as int) == pat {
        rep + replace_spec(s.subrange(pat.len() as int, s.len() as int), pat, rep)
    } else {
        seq![s[0]] + replace_spec(s.drop_first(), pat, rep)
    }
}

/// A filename joined onto a directory with a `/` separator, unless the
/// directory is empty or already ends with one.
pub open spec fn join_spec(dir: Seq<char>, file: Seq<char>) -> Seq<char> {
    if dir.len() == 0 {
        file
    } else if dir.last() == '/' {
        dir + file
    } else {
        dir + "/"@ + file
    }
}

/// The resolved plugin path: the directory joined with the filename
/// template after substituting the version token for the placeholder.
pub open spec fn plugin_path_spec(cfg: ConfigModel, token: Seq<char>) -> Seq<char> {
    join_spec(cfg.dir, replace_spec(cfg.filename_format, "{py_version}"@, token))
}

/// The path builder is a pure function of the configuration and the token:
/// every run's contract pins the result to `plugin_path_spec`, so two runs
/// on identical inputs yield identical paths.
pub proof fn lemma_path_builder_deterministic(
    cfg: ConfigModel,
    token: Seq<char>,
    p1: Seq<char>,
    p2: Seq<char>,
)
    requires
        p1 == plugin_path_spec(cfg, token),
        p2 == plugin_path_spec(cfg, token),
    ensures
        p1 == p2,
{
}

/// Whether `pat` occurs in `s` at position `i`.
fn matches_at(s: &str, i: usize, pat: &str) -> (r: bool)
    requires
        i <= s@.len(),
    ensures
        r == (i + pat@.len() <= s@.len() && s@.subrange(i as int, i + pat@.len()) == pat@),
{
    let n = s.unicode_len();
    let pn = pat.unicode_len();
    if pn > n - i {
        return false;
    }
    let mut j: usize = 0;
    while j < pn
        invariant
            0 <= j <= pn,
            n == s@.len(),
            pn == pat@.len(),
            i + pn <= n,
            forall|k: int| 0 <= k < j ==> s@[i + k] == pat@[k],
        decreases pn - j,
    {
        let c = s.get_char(i + j);
        let p = pat.get_char(j);
        if c != p {
            proof {
                let sub = s@.subrange(i as int, i + pat@.len());
                assert(sub[j as int] == s@[i + j]);
                assert(sub != pat@) by {
                    if sub == pat@ {
                        assert(sub[j as int] == pat@[j as int]);
                    }
                }
            }
            return false;
        }
        j = j + 1;
    }
    proof {
        assert(s@.subrange(i as int, i + pat@.len()) =~= pat@);
    }
    true
}

/// Replaces every occurrence of `pat` in `s` with `rep`, as `replace_spec`
/// describes.
pub fn replace(s: &str, pat: &str, rep: &str) -> (r: String)
    requires
        pat@.len() > 0,
    ensures
        r@ == replace_spec(s@, pat@, rep@),
{
    let n = s.unicode_len();
    let pn = pat.unicode_len();
    let mut out = String::new();
    let mut i: usize = 0;
    proof {
        assert(s@.subrange(0, n as int) =~= s@);
    }
    while i < n
        invariant
            0 <= i <= n,
            n == s@.len(),
            pn == pat@.len(),
            pat@.len() > 0,
            out@ + replace_spec(s@.subrange(i as int, n as int), pat@, rep@) == replace_spec(
                s@,
                pat@,
                rep@,
            ),
        decreases n - i,
    {
        let ghost suf = s@.subrange(i as int, n as int);
        let ghost out0 = out@;
        if matches_at(s, i, pat) {
            out.append(rep);
            proof {
                let tail = s@.subrange(i + pn as int, n as int);
                assert(suf.subrange(0, pn as int) =~= s@.subrange(i as int, i + pn as int));
                assert(suf.subrange(pn as int, suf.len() as int) =~= tail);
                assert(replace_spec(suf, pat@, rep@) == rep@ + replace_spec(tail, pat@, rep@));
                assert((out0 + rep@) + replace_spec(tail, pat@, rep@) =~= out0 + (rep@
                    + replace_spec(tail, pat@, rep@)));
            }
            i = i + pn;
        } else {
            let cs = s.substring_char(i, i + 1);
            out.append(cs);
            proof {
                let tail = s@.subrange(i as int + 1, n as int);
                assert(cs@ =~= seq![s@[i as int]]);
                if suf.len() < pn {
                    assert(replace_spec(suf, pat@, rep@) == suf);
                    assert(replace_spec(tail, pat@, rep@) == tail);
                    assert(suf =~= seq![s@[i as int]] + tail);
                } else {
                    assert(suf.subrange(0, pn as int) =~= s@.subrange(
                        i as int,
                        i + pn as int,
                    ));
                    assert(suf.subrange(0, pn as int) != pat@);
                    assert(suf.drop_first() =~= tail);
                    assert(suf[0] == s@[i as int]);
                    assert(replace_spec(suf, pat@, rep@) == seq![s@[i as int]] + replace_spec(
                        tail,
                        pat@,
                        rep@,
                    ));
                }
                assert((out0 + seq![s@[i as int]]) + replace_spec(tail, pat@, rep@) =~= out0 + (
                seq![s@[i as int]] + replace_spec(tail, pat@, rep@)));
            }
            i = i + 1;
        }
    }
    proof {
        assert(s@.subrange(n as int, n as int) =~= Seq::<char>::empty());
        assert(replace_spec(Seq::<char>::empty(), pat@, rep@) == Seq::<char>::empty());
        assert(out@ + Seq::<char>::empty() =~= out@);
    }
    out
}

/// Builds the resolved plugin path from the configuration and the version
/// token, as `plugin_path_spec` describes.
pub fn build_plugin_path(cfg: &Config, token: &str) -> (r: String)
    ensures
        r@ == plugin_path_spec(cfg@, token@),
{
    proof {
        reveal_strlit("{py_version}");
    }
    let file = replace(cfg.filename_format.as_str(), "{py_version}", token);
    let dirs = cfg.dir.as_str();
    let dn = dirs.unicode_len();
    if dn == 0 {
        return file;
    }
    let mut out = dirs.to_owned();
    if dirs.get_char(dn - 1) != '/' {
        out.append("/");
    }
    out.append(file.as_str());
    out
}

} // verus!
