use vstd::prelude::*;
use vstd::string::*;

verus! {

/// The characters that open a wildcard, a character class or a group.
pub open spec fn is_meta(c: char) -> bool {
    c == '*' || c == '[' || c == '{'
}

/// The literal text at the start of a glob: characters are taken up to the
/// first metacharacter that is not escaped; an escaped character stands for
/// itself and its backslash is dropped, as is a backslash that ends the glob.
pub open spec fn literal_prefix(p: Seq<char>) -> Seq<char>
    decreases p.len(),
{
    if p.len() == 0 || is_meta(p[0]) {
        seq![]
    } else if p[0] == '\\' {
        if p.len() == 1 {
            seq![]
        } else {
            seq![p[1]] + literal_prefix(p.subrange(2, p.len() as int))
        }
    } else {
        seq![p[0]] + literal_prefix(p.subrange(1, p.len() as int))
    }
}

/// The prefix of a glob is literal text taken from the glob itself: it is never
/// longer than the glob, and a glob without metacharacters or escapes is its own
/// prefix.
pub proof fn lemma_prefix_is_literal(p: Seq<char>)
    ensures
        literal_prefix(p).len() <= p.len(),
        (forall|i: int| 0 <= i < p.len() ==> !is_meta(#[trigger] p[i]) && p[i] != '\\')
            ==> literal_prefix(p) == p,
    decreases p.len(),
{
    if p.len() > 0 && !is_meta(p[0]) {
        if p[0] == '\\' {
            if p.len() > 1 {
                lemma_prefix_is_literal(p.subrange(2, p.len() as int));
            }
        } else {
            let rest = p.subrange(1, p.len() as int);
            lemma_prefix_is_literal(rest);
            if forall|i: int| 0 <= i < p.len() ==> !is_meta(#[trigger] p[i]) && p[i] != '\\' {
                assert forall|i: int| 0 <= i < rest.len() implies !is_meta(#[trigger] rest[i])
                    && rest[i] != '\\' by {
                    assert(rest[i] == p[i + 1]);
                }
                assert(seq![p[0]] + rest == p);
            }
        }
    }
}

/// The prefix never cuts into the literal text a glob starts with: whatever
/// follows a run of plain characters, the prefix is that run followed by the
/// prefix of the rest.
pub proof fn lemma_literal_start_kept(q: Seq<char>, r: Seq<char>)
    requires
        forall|i: int| 0 <= i < q.len() ==> !is_meta(#[trigger] q[i]) && q[i] != '\\',
    ensures
        literal_prefix(q + r) == q + literal_prefix(r),
    decreases q.len(),
{
    if q.len() == 0 {
        assert(q + r == r);
        assert(q + literal_prefix(r) == literal_prefix(r));
    } else {
        let rest = q.subrange(1, q.len() as int);
        assert forall|i: int| 0 <= i < rest.len() implies !is_meta(#[trigger] rest[i]) && rest[i]
            != '\\' by {
            assert(rest[i] == q[i + 1]);
        }
        lemma_literal_start_kept(rest, r);
        assert((q + r)[0] == q[0]);
        assert((q + r).subrange(1, (q + r).len() as int) == rest + r);
        assert(q == seq![q[0]] + rest);
        assert(seq![q[0]] + (rest + literal_prefix(r)) == q + literal_prefix(r));
    }
}

/// Find the unambiguous prefix of a glob.
pub fn find_prefix(glob: &str) -> (r: String)
    ensures
        r@ == literal_prefix(glob@),
{
    let n = glob.unicode_len();
    let mut out = String::new();
    let mut i: usize = 0;
    proof {
        assert(glob@.subrange(0, n as int) == glob@);
        assert(out@ + literal_prefix(glob@) == literal_prefix(glob@));
    }
    while i < n
        invariant
            n == glob@.len(),
            i <= n,
            out@ + literal_prefix(glob@.subrange(i as int, n as int)) == literal_prefix(glob@),
        decreases n - i,
    {
        let c = glob.get_char(i);
        let ghost rest = glob@.subrange(i as int, n as int);
        if c == '*' || c == '[' || c == '{' {
            proof {
                assert(literal_prefix(rest) == Seq::<char>::empty());
                assert(out@ + Seq::<char>::empty() == out@);
            }
            return out;
        } else if c == '\\' {
            if i + 1 == n {
                proof {
                    assert(literal_prefix(rest) == Seq::<char>::empty());
                    assert(out@ + Seq::<char>::empty() == out@);
                }
                return out;
            }
            let piece = glob.substring_char(i + 1, i + 2);
            proof {
                assert(rest.subrange(2, rest.len() as int) == glob@.subrange(i + 2, n as int));
                assert(piece@ == seq![rest[1]]);
                assert(out@ + piece@ + literal_prefix(glob@.subrange(i + 2, n as int))
                    == out@ + literal_prefix(rest));
            }
            out.append(piece);
            i = i + 2;
        } else {
            let piece = glob.substring_char(i, i + 1);
            proof {
                assert(rest.subrange(1, rest.len() as int) == glob@.subrange(i + 1, n as int));
                assert(piece@ == seq![rest[0]]);
                assert(out@ + piece@ + literal_prefix(glob@.subrange(i + 1, n as int))
                    == out@ + literal_prefix(rest));
            }
            out.append(piece);
            i = i + 1;
        }
    }
    proof {
        assert(glob@.subrange(n as int, n as int) == Seq::<char>::empty());
        assert(out@ + Seq::<char>::empty() == out@);
    }
    out
}

} // verus!
