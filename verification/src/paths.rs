//! The file names the compiler reads and writes.

use vstd::prelude::*;
use crate::text::{chars_of, push_char};

verus! {

/// Whether a file name ends in `.lol`.
pub open spec fn has_lol_extension(name: Seq<char>) -> bool {
    name.len() >= 4 && name.skip(name.len() - 4) == ".lol"@
}

/// The name with every `.lol` (read left to right, without overlaps)
/// replaced by `.html`.
pub open spec fn lol_to_html(name: Seq<char>) -> Seq<char>
    decreases name.len(),
{
    if name.len() == 0 {
        seq![]
    } else if name.len() >= 4 && name.take(4) == ".lol"@ {
        ".html"@ + lol_to_html(name.skip(4))
    } else {
        seq![name[0]] + lol_to_html(name.skip(1))
    }
}

/// Whether `name` names a source file, that is, ends in `.lol`.
pub fn is_lol_file(name: &str) -> (r: bool)
    ensures
        r == has_lol_extension(name@),
{
    proof {
        reveal_strlit(".lol");
    }
    let cs = chars_of(name);
    let n = cs.len();
    if n < 4 {
        return false;
    }
    let r = cs[n - 4] == '.' && cs[n - 3] == 'l' && cs[n - 2] == 'o' && cs[n - 1] == 'l';
    if r {
        assert(name@.skip(n - 4) =~= ".lol"@);
    } else {
        assert(name@.skip(n - 4) != ".lol"@ ) by {
            if name@.skip(n - 4) == ".lol"@ {
                assert(name@.skip(n - 4)[0] == '.');
                assert(name@.skip(n - 4)[1] == 'l');
                assert(name@.skip(n - 4)[2] == 'o');
                assert(name@.skip(n - 4)[3] == 'l');
            }
        }
    }
    r
}

/// The name of the HTML file written for a source file: every `.lol` in
/// the name becomes `.html`.
pub fn html_file_name(name: &str) -> (r: String)
    ensures
        r@ == lol_to_html(name@),
{
    proof {
        reveal_strlit(".lol");
    }
    let cs = chars_of(name);
    let mut out = String::new();
    let mut i: usize = 0;
    assert(name@.skip(0) =~= name@);
    while i < cs.len()
        invariant
            cs@ == name@,
            i <= cs@.len(),
            out@ + lol_to_html(cs@.skip(i as int)) == lol_to_html(cs@),
        decreases cs@.len() - i,
    {
        let ghost rest = cs@.skip(i as int);
        let ghost before = out@;
        proof {
            reveal_strlit(".lol");
        }
        if cs.len() - i >= 4 && cs[i] == '.' && cs[i + 1] == 'l' && cs[i + 2] == 'o' && cs[i + 3]
            == 'l' {
            assert(rest.take(4) =~= ".lol"@);
            assert(rest.skip(4) =~= cs@.skip(i + 4));
            out.append(".html");
            i += 4;
            assert(out@ + lol_to_html(cs@.skip(i as int)) =~= before + lol_to_html(rest));
        } else {
            assert(rest.len() >= 4 ==> rest.take(4) != ".lol"@) by {
                if rest.len() >= 4 && rest.take(4) == ".lol"@ {
                    assert(rest.take(4)[0] == '.');
                    assert(rest.take(4)[1] == 'l');
                    assert(rest.take(4)[2] == 'o');
                    assert(rest.take(4)[3] == 'l');
                }
            }
            assert(rest.skip(1) =~= cs@.skip(i + 1));
            push_char(&mut out, cs[i]);
            i += 1;
            assert(out@ + lol_to_html(cs@.skip(i as int)) =~= before + lol_to_html(rest));
        }
    }
    assert(cs@.skip(i as int) =~= seq![]);
    assert(out@ =~= out@ + lol_to_html(cs@.skip(i as int)));
    out
}

/// Whether `.lol` occurs in `s` at index `i`.
pub open spec fn lol_at(s: Seq<char>, i: int) -> bool {
    0 <= i && i + 4 <= s.len() && s.subrange(i, i + 4) == ".lol"@
}

/// A name in which `.lol` does not occur is kept, character for character.
pub proof fn law_names_without_lol_are_kept(s: Seq<char>)
    requires
        forall|i: int| !lol_at(s, i),
    ensures
        lol_to_html(s) == s,
    decreases s.len(),
{
    if s.len() > 0 {
        assert(!lol_at(s, 0));
        assert(s.len() >= 4 ==> s.take(4) =~= s.subrange(0, 4));
        let t = s.skip(1);
        assert forall|i: int| !lol_at(t, i) by {
            if lol_at(t, i) {
                assert(t.subrange(i, i + 4) =~= s.subrange(i + 1, i + 5));
                assert(lol_at(s, i + 1));
            }
        }
        law_names_without_lol_are_kept(t);
        assert(seq![s[0]] + t =~= s);
    }
}

/// Only the `.lol` extension is renamed: for a stem in which `.lol` does
/// not occur, `stem.lol` becomes `stem.html`, and every character of the
/// stem is kept.
pub proof fn law_extension_becomes_html(stem: Seq<char>)
    requires
        forall|i: int| !lol_at(stem, i),
    ensures
        lol_to_html(stem + ".lol"@) == stem + ".html"@,
    decreases stem.len(),
{
    reveal_strlit(".lol");
    let x = stem + ".lol"@;
    if stem.len() == 0 {
        assert(x =~= ".lol"@);
        assert(x.take(4) =~= ".lol"@);
        assert(x.skip(4) =~= Seq::<char>::empty());
        assert(lol_to_html(x.skip(4)) == Seq::<char>::empty());
        assert(lol_to_html(x) == ".html"@ + lol_to_html(x.skip(4)));
        assert(".html"@ + Seq::<char>::empty() =~= ".html"@);
        assert(stem + ".html"@ =~= ".html"@);
    } else {
        assert(!(x.len() >= 4 && x.take(4) == ".lol"@)) by {
            if x.len() >= 4 && x.take(4) == ".lol"@ {
                if stem.len() >= 4 {
                    assert(x.take(4) =~= stem.subrange(0, 4));
                    assert(lol_at(stem, 0));
                } else {
                    let k = stem.len() as int;
                    assert(x[k] == '.');
                    assert(x.take(4)[k] == x[k]);
                    assert(".lol"@[k] != '.');
                }
            }
        }
        let t = stem.skip(1);
        assert forall|i: int| !lol_at(t, i) by {
            if lol_at(t, i) {
                assert(t.subrange(i, i + 4) =~= stem.subrange(i + 1, i + 5));
                assert(lol_at(stem, i + 1));
            }
        }
        law_extension_becomes_html(t);
        assert(x.skip(1) =~= t + ".lol"@);
        assert(x[0] == stem[0]);
        assert(lol_to_html(x) == seq![x[0]] + lol_to_html(x.skip(1)));
        assert(seq![x[0]] + (t + ".html"@) =~= stem + ".html"@);
    }
}

} // verus!
