//! Byte-sequence helpers shared by the text-consuming components:
//! separator splitting and exact comparison.

use vstd::prelude::*;

verus! {

/// The fields of `s` as cut at every occurrence of `sep`. Always at least
/// one field; consecutive separators yield empty fields.
pub open spec fn split_by(s: Seq<u8>, sep: u8) -> Seq<Seq<u8>>
    decreases s.len(),
{
    if s.len() == 0 {
        seq![Seq::<u8>::empty()]
    } else if s[0] == sep {
        seq![Seq::<u8>::empty()] + split_by(s.skip(1), sep)
    } else {
        let rest = split_by(s.skip(1), sep);
        seq![seq![s[0]] + rest[0]] + rest.skip(1)
    }
}

pub proof fn lemma_split_by_len(s: Seq<u8>, sep: u8)
    ensures
        split_by(s, sep).len() >= 1,
    decreases s.len(),
{
    if s.len() > 0 {
        lemma_split_by_len(s.skip(1), sep);
    }
}

/// Splits a byte string at every occurrence of `sep`.
pub fn split_bytes(v: &[u8], sep: u8) -> (r: Vec<Vec<u8>>)
    ensures
        r@.map_values(|p: Vec<u8>| p@) == split_by(v@, sep),
        r@.len() >= 1,
{
    let mut out: Vec<Vec<u8>> = Vec::new();
    let mut cur: Vec<u8> = Vec::new();
    let mut i: usize = 0;
    proof {
        lemma_split_by_len(v@, sep);
        assert(v@.skip(0) =~= v@);
        assert(seq![split_by(v@, sep)[0]] + split_by(v@, sep).skip(1) =~= split_by(v@, sep));
    }
    while i < v.len()
        invariant
            0 <= i <= v@.len(),
            split_by(v@.skip(i as int), sep).len() >= 1,
            split_by(v@, sep) =~= out@.map_values(|p: Vec<u8>| p@) + seq![
                cur@ + split_by(v@.skip(i as int), sep)[0],
            ] + split_by(v@.skip(i as int), sep).skip(1),
        decreases v@.len() - i,
    {
        let ghost pre = v@.skip(i as int);
        proof {
            assert(pre[0] == v@[i as int]);
            assert(pre.skip(1) =~= v@.skip(i + 1));
            lemma_split_by_len(v@.skip(i + 1), sep);
        }
        let c = v[i];
        if c == sep {
            let finished = cur;
            cur = Vec::new();
            out.push(finished);
            proof {
                let post = split_by(v@.skip(i + 1), sep);
                assert(split_by(pre, sep) == seq![Seq::<u8>::empty()] + post);
                assert(finished@ + split_by(pre, sep)[0] =~= finished@);
                assert(out@.map_values(|p: Vec<u8>| p@) =~= out@.drop_last().map_values(
                    |p: Vec<u8>| p@,
                ) + seq![finished@]);
                assert(split_by(pre, sep).skip(1) =~= seq![post[0]] + post.skip(1));
                assert(seq![post[0]] + post.skip(1) =~= post);
            }
        } else {
            proof {
                let post = split_by(v@.skip(i + 1), sep);
                assert(split_by(pre, sep) == seq![seq![pre[0]] + post[0]] + post.skip(1));
                assert(cur@ + split_by(pre, sep)[0] =~= (cur@ + seq![c]) + post[0]);
                assert(split_by(pre, sep).skip(1) =~= post.skip(1));
                assert(cur@.push(c) =~= cur@ + seq![c]);
            }
            cur.push(c);
        }
        i = i + 1;
    }
    proof {
        assert(v@.skip(v@.len() as int) =~= Seq::<u8>::empty());
        assert(split_by(v@.skip(v@.len() as int), sep) == seq![Seq::<u8>::empty()]);
        assert(cur@ + Seq::<u8>::empty() =~= cur@);
        assert(seq![Seq::<u8>::empty()].skip(1) =~= Seq::<Seq<u8>>::empty());
    }
    let ghost old_out = out@;
    out.push(cur);
    proof {
        assert(out@.map_values(|p: Vec<u8>| p@) =~= old_out.map_values(|p: Vec<u8>| p@) + seq![
            cur@,
        ]);
        assert(old_out.map_values(|p: Vec<u8>| p@) + seq![cur@] =~= split_by(v@, sep));
    }
    out
}

/// Exact byte-for-byte equality of two byte strings.
pub fn bytes_eq(a: &[u8], b: &[u8]) -> (r: bool)
    ensures
        r == (a@ == b@),
{
    if a.len() != b.len() {
        return false;
    }
    let mut i: usize = 0;
    while i < a.len()
        invariant
            0 <= i <= a@.len(),
            a@.len() == b@.len(),
            forall|j: int| 0 <= j < i ==> a@[j] == b@[j],
        decreases a@.len() - i,
    {
        if a[i] != b[i] {
            return false;
        }
        i = i + 1;
    }
    proof {
        assert(a@ =~= b@);
    }
    true
}

} // verus!
