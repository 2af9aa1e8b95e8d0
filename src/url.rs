//! Derivation of the raw LICENSE URL of a source repository.
use vstd::prelude::*;

verus! {

/// The result of replacing, from left to right, every non-overlapping
/// occurrence of `from` in `s` by `to`.
pub open spec fn replaced(s: Seq<char>, from: Seq<char>, to: Seq<char>) -> Seq<char>
    decreases s.len(),
{
    if s.len() == 0 || from.len() == 0 {
        s
    } else if from.len() <= s.len() && s.subrange(0, from.len() as int) == from {
        to + replaced(s.subrange(from.len() as int, s.len() as int), from, to)
    } else {
        seq![s[0]] + replaced(s.subrange(1, s.len() as int), from, to)
    }
}

/// Relies on str::replace: every non-overlapping match of a non-empty
/// pattern, taken from the left, is replaced.
#[verifier::external_body]
fn replace_all(s: &str, from: &str, to: &str) -> (r: String)
    requires
        from@.len() > 0,
    ensures
        r@ == replaced(s@, from@, to@),
{
    s.replace(from, to)
}

/// The raw-content URL of the LICENSE file that the repository at `source`
/// publishes on its `master` branch: every `.git` removed, the GitHub host
/// rewritten to its raw-content host, and `/master/LICENSE` appended.
pub open spec fn license_url(source: Seq<char>) -> Seq<char> {
    rewritten(source) + "/master/LICENSE"@
}

/// The source URL with every `.git` removed and the GitHub host rewritten
/// to its raw-content host.
pub open spec fn rewritten(source: Seq<char>) -> Seq<char> {
    replaced(replaced(source, ".git"@, ""@), "https://github"@, "https://raw.githubusercontent"@)
}

/// Derives the URL of the LICENSE file from the URL of the source repository.
pub fn form_license_url(source_repo_url: String) -> (url: String)
    ensures
        url@ == license_url(source_repo_url@),
{
    proof {
        reveal_strlit(".git");
        reveal_strlit("https://github");
    }
    let stripped = replace_all(source_repo_url.as_str(), ".git", "");
    let mut url = replace_all(stripped.as_str(), "https://github", "https://raw.githubusercontent");
    url.append("/master/LICENSE");
    url
}

/// Whether `p` occurs in `s` starting at index `i`.
pub open spec fn occurs_at(s: Seq<char>, p: Seq<char>, i: int) -> bool {
    0 <= i && i + p.len() <= s.len() && s.subrange(i, i + p.len()) == p
}

/// Whether `p` occurs nowhere in `s`.
pub open spec fn free_of(s: Seq<char>, p: Seq<char>) -> bool {
    forall|i: int| !#[trigger] occurs_at(s, p, i)
}

/// A source URL on which derivation rewrites nothing: it holds neither
/// `.git` nor `https://github`.
pub open spec fn is_stable_source(s: Seq<char>) -> bool {
    free_of(s, ".git"@) && free_of(s, "https://github"@)
}

/// Replacing a pattern that does not occur leaves the text unchanged.
pub proof fn lemma_replaced_absent(s: Seq<char>, p: Seq<char>, t: Seq<char>)
    requires
        p.len() > 0,
        free_of(s, p),
    ensures
        replaced(s, p, t) == s,
    decreases s.len(),
{
    if s.len() > 0 {
        assert(!occurs_at(s, p, 0));
        let rest = s.subrange(1, s.len() as int);
        assert forall|i: int| !#[trigger] occurs_at(rest, p, i) by {
            if occurs_at(rest, p, i) {
                assert(rest.subrange(i, i + p.len()) =~= s.subrange(i + 1, i + 1 + p.len()));
                assert(occurs_at(s, p, i + 1));
            }
        }
        lemma_replaced_absent(rest, p, t);
        assert(seq![s[0]] + rest =~= s);
    }
}

/// A pattern absent from `s` stays absent after appending a suffix that
/// joins cleanly with it.
proof fn lemma_free_of_append(s: Seq<char>, sfx: Seq<char>, p: Seq<char>)
    requires
        joins_cleanly(sfx, p),
        free_of(s, p),
    ensures
        free_of(s + sfx, p),
{
    let t = s + sfx;
    assert forall|i: int| !#[trigger] occurs_at(t, p, i) by {
        if occurs_at(t, p, i) {
            if i + p.len() <= s.len() {
                assert(t.subrange(i, i + p.len()) =~= s.subrange(i, i + p.len()));
                assert(occurs_at(s, p, i));
            } else if i >= s.len() {
                assert(t.subrange(i, i + p.len())[0] == t[i]);
                assert(t[i] == sfx[i - s.len()]);
            } else {
                let k = s.len() - i;
                assert(t.subrange(i, i + p.len())[k] == t[s.len() as int]);
                if k + 1 < p.len() {
                    assert(t.subrange(i, i + p.len())[k + 1] == t[s.len() + 1int]);
                }
            }
        }
    }
}

/// Whether appending `sfx` can neither start nor complete an occurrence of
/// `p`: no character of `sfx` starts the pattern, and no proper tail of the
/// pattern runs across the joint.
pub open spec fn joins_cleanly(sfx: Seq<char>, p: Seq<char>) -> bool {
    &&& p.len() > 1
    &&& sfx.len() > 1
    &&& forall|j: int| 0 <= j < sfx.len() ==> sfx[j] != p[0]
    &&& forall|k: int| 0 < k < p.len() ==> #[trigger] p[k] != sfx[0] || (k + 1 < p.len() && p[k + 1] != sfx[1])
}

/// The LICENSE suffix joins cleanly with both patterns that derivation
/// rewrites.
proof fn lemma_suffix_joins_cleanly()
    ensures
        joins_cleanly("/master/LICENSE"@, ".git"@),
        joins_cleanly("/master/LICENSE"@, "https://github"@),
{
    reveal_strlit(".git");
    reveal_strlit("https://github");
    reveal_strlit("/master/LICENSE");
    let sfx = "/master/LICENSE"@;
    let g = ".git"@;
    let h = "https://github"@;
    assert forall|k: int| 0 < k < g.len() implies #[trigger] g[k] != sfx[0] || (k + 1 < g.len() && g[k + 1] != sfx[1]) by {
        assert(g[k] == 'g' || g[k] == 'i' || g[k] == 't');
    }
    assert forall|k: int| 0 < k < h.len() implies #[trigger] h[k] != sfx[0] || (k + 1 < h.len() && h[k + 1] != sfx[1]) by {
        if k == 6 || k == 7 {
            assert(h[k + 1] != 'm');
        } else {
            assert(h[k] != '/');
        }
    }
}

/// A stable source stays stable once the LICENSE suffix is appended.
proof fn lemma_stable_with_suffix(s: Seq<char>)
    requires
        is_stable_source(s),
    ensures
        is_stable_source(s + "/master/LICENSE"@),
{
    lemma_suffix_joins_cleanly();
    lemma_free_of_append(s, "/master/LICENSE"@, ".git"@);
    lemma_free_of_append(s, "/master/LICENSE"@, "https://github"@);
}

/// Replacement passes over a suffix that joins cleanly and leaves it as it is.
proof fn lemma_replaced_append(y: Seq<char>, sfx: Seq<char>, p: Seq<char>, t: Seq<char>)
    requires
        joins_cleanly(sfx, p),
    ensures
        replaced(y + sfx, p, t) == replaced(y, p, t) + sfx,
    decreases y.len(),
{
    let n = p.len() as int;
    let ys = y + sfx;
    if y.len() == 0 {
        assert forall|i: int| !#[trigger] occurs_at(sfx, p, i) by {
            if occurs_at(sfx, p, i) {
                assert(sfx.subrange(i, i + n)[0] == sfx[i]);
            }
        }
        lemma_replaced_absent(sfx, p, t);
        assert(ys =~= sfx);
        assert(replaced(y, p, t) + sfx =~= sfx);
    } else if n <= y.len() && y.subrange(0, n) == p {
        assert(ys.subrange(0, n) =~= y.subrange(0, n));
        let rest = y.subrange(n, y.len() as int);
        assert(ys.subrange(n, ys.len() as int) =~= rest + sfx);
        lemma_replaced_append(rest, sfx, p, t);
        assert(replaced(y, p, t) == t + replaced(rest, p, t));
        assert(t + (replaced(rest, p, t) + sfx) =~= (t + replaced(rest, p, t)) + sfx);
    } else {
        if n <= ys.len() && ys.subrange(0, n) == p {
            if n <= y.len() {
                assert(ys.subrange(0, n) =~= y.subrange(0, n));
            } else {
                let k = y.len() as int;
                assert(ys.subrange(0, n)[k] == sfx[0]);
                if k + 1 < n {
                    assert(ys.subrange(0, n)[k + 1] == sfx[1]);
                }
            }
        }
        let rest = y.subrange(1, y.len() as int);
        assert(ys.subrange(1, ys.len() as int) =~= rest + sfx);
        lemma_replaced_append(rest, sfx, p, t);
        assert(ys[0] == y[0]);
        assert(seq![y[0]] + (replaced(rest, p, t) + sfx) =~= (seq![y[0]] + replaced(rest, p, t)) + sfx);
    }
}

/// Derivation is not idempotent: on every source, a second pass keeps the
/// first `/master/LICENSE` and appends a second one, so the twice derived URL
/// ends in `/master/LICENSE/master/LICENSE`.
pub proof fn lemma_license_url_twice(s: Seq<char>)
    ensures
        license_url(license_url(s)) == rewritten(rewritten(s)) + "/master/LICENSE"@ + "/master/LICENSE"@,
{
    let sfx = "/master/LICENSE"@;
    lemma_suffix_joins_cleanly();
    let once = rewritten(s);
    let stripped = replaced(once, ".git"@, ""@);
    lemma_replaced_append(once, sfx, ".git"@, ""@);
    lemma_replaced_append(stripped, sfx, "https://github"@, "https://raw.githubusercontent"@);
}

/// On a stable source, derivation only appends `/master/LICENSE`, and it is
/// not idempotent: a second pass over the derived URL appends the suffix once
/// more.
pub proof fn lemma_license_url_second_pass(s: Seq<char>)
    requires
        is_stable_source(s),
    ensures
        license_url(s) == s + "/master/LICENSE"@,
        license_url(license_url(s)) == license_url(s) + "/master/LICENSE"@,
{
    reveal_strlit(".git");
    reveal_strlit("https://github");
    lemma_replaced_absent(s, ".git"@, ""@);
    lemma_replaced_absent(s, "https://github"@, "https://raw.githubusercontent"@);
    let once = s + "/master/LICENSE"@;
    lemma_stable_with_suffix(s);
    lemma_replaced_absent(once, ".git"@, ""@);
    lemma_replaced_absent(once, "https://github"@, "https://raw.githubusercontent"@);
}

} // verus!
