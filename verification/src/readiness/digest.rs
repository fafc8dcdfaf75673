//! Digests of environments. A digest stands for an environment without holding any of it.
use vstd::bytes;
use vstd::prelude::*;
use vstd::utf8;

use crate::env_map;
use crate::env_map::EnvMap;
use crate::keyed;
use crate::outside;

verus! {

/// A text as its length in bytes, in eight bytes with the lowest first, and its bytes.
pub open spec fn framed_text(s: Seq<char>) -> Seq<u8> {
    bytes::spec_u64_to_le_bytes(utf8::encode_utf8(s).len() as u64) + utf8::encode_utf8(s)
}

/// Pairs as the framed texts of each key and value, one after the other.
pub open spec fn framed(pairs: Seq<(Seq<char>, Seq<char>)>) -> Seq<u8>
    decreases pairs.len(),
{
    if pairs.len() == 0 {
        Seq::empty()
    } else {
        framed(pairs.drop_last()) + (framed_text(pairs.last().0) + framed_text(pairs.last().1))
    }
}

/// The bytes that an environment is digested as: its entries in the order of their keys.
pub open spec fn framed_env(env: Map<Seq<char>, Seq<char>>) -> Seq<u8> {
    framed(env_map::sorted_listing(env))
}

/// Whether an environment is small enough to be digested: its length in bits has to fit in
/// 64 bits.
pub open spec fn digestible(env: Map<Seq<char>, Seq<char>>) -> bool {
    framed_env(env).len() < 0x2000_0000_0000_0000
}

/// The digest of an environment.
pub open spec fn digested(env: Map<Seq<char>, Seq<char>>) -> Seq<u8> {
    outside::sha256(framed_env(env))
}

/// Adds a framed text to the bytes.
fn push_framed(out: &mut Vec<u8>, s: &str)
    ensures
        final(out)@ == old(out)@ + framed_text(s@),
{
    let content: &[u8] = s.as_bytes();
    let mut length: Vec<u8> = bytes::u64_to_le_bytes(content.len() as u64);
    let ghost before = out@;
    let ghost head = length@;
    out.append(&mut length);
    out.extend_from_slice(content);
    assert(out@ =~= before + (head + content@));
}

/// The bytes that an environment is digested as.
fn framed_bytes(env: &EnvMap) -> (r: Vec<u8>)
    requires
        env.wf(),
    ensures
        r@ == framed_env(env@),
{
    let ghost list = env.listing();
    let mut out: Vec<u8> = Vec::new();
    let mut i: usize = 0;
    while i < env.len()
        invariant
            env.wf(),
            list == env.listing(),
            i <= list.len(),
            out@ == framed(list.take(i as int)),
        decreases list.len() - i,
    {
        let ghost before = out@;
        push_framed(&mut out, env.key_at(i).as_str());
        push_framed(&mut out, env.value_at(i).as_str());
        proof {
            let (k, v) = list[i as int];
            assert(list.take(i + 1).drop_last() =~= list.take(i as int));
            assert(out@ =~= before + (framed_text(k) + framed_text(v)));
        }
        i += 1;
    }
    proof {
        env.lemma_listing();
        assert(list.take(list.len() as int) =~= list);
    }
    out
}

/// The digest of an environment.
pub fn env_digest(env: &EnvMap) -> (r: [u8; 32])
    requires
        env.wf(),
        digestible(env@),
    ensures
        r@ == digested(env@),
{
    let content = framed_bytes(env);
    outside::sha256_digest(content.as_slice())
}

/// Whether the texts of all pairs have lengths that fit in 64 bits.
pub open spec fn lengths_fit(pairs: Seq<(Seq<char>, Seq<char>)>) -> bool {
    forall|i: int|
        0 <= i < pairs.len() ==> {
            &&& utf8::encode_utf8((#[trigger] pairs[i]).0).len() <= u64::MAX
            &&& utf8::encode_utf8(pairs[i].1).len() <= u64::MAX
        }
}

/// Framed texts with the same bytes at the front are the same text, and the same bytes
/// follow.
proof fn framed_text_front(a: Seq<char>, b: Seq<char>, x: Seq<u8>, y: Seq<u8>)
    requires
        framed_text(a) + x == framed_text(b) + y,
        utf8::encode_utf8(a).len() <= u64::MAX,
        utf8::encode_utf8(b).len() <= u64::MAX,
    ensures
        a == b,
        x == y,
{
    bytes::lemma_auto_spec_u64_to_from_le_bytes();
    let la = bytes::spec_u64_to_le_bytes(utf8::encode_utf8(a).len() as u64);
    let lb = bytes::spec_u64_to_le_bytes(utf8::encode_utf8(b).len() as u64);
    let whole = framed_text(a) + x;
    assert(whole.take(8) =~= la);
    assert((framed_text(b) + y).take(8) =~= lb);
    assert(utf8::encode_utf8(a).len() == utf8::encode_utf8(b).len());
    let n = utf8::encode_utf8(a).len() as int;
    assert(whole.subrange(8, 8 + n) =~= utf8::encode_utf8(a));
    assert((framed_text(b) + y).subrange(8, 8 + n) =~= utf8::encode_utf8(b));
    utf8::encode_utf8_decode_utf8(a);
    utf8::encode_utf8_decode_utf8(b);
    assert(whole.skip(8 + n) =~= x);
    assert((framed_text(b) + y).skip(8 + n) =~= y);
}

/// The framing of a list is that of its first pair and of the rest.
proof fn framed_front(pairs: Seq<(Seq<char>, Seq<char>)>)
    requires
        pairs.len() > 0,
    ensures
        framed(pairs) == framed_text(pairs[0].0) + (framed_text(pairs[0].1) + framed(
            pairs.drop_first(),
        )),
    decreases pairs.len(),
{
    let (k, v) = pairs[0];
    let rest = pairs.drop_first();
    if pairs.len() == 1 {
        assert(pairs.drop_last() =~= Seq::empty());
        assert(framed(pairs.drop_last()) =~= Seq::empty());
        assert(rest =~= Seq::empty());
        assert(framed(pairs) =~= framed_text(k) + (framed_text(v) + framed(rest)));
    } else {
        framed_front(pairs.drop_last());
        assert(pairs.drop_last().drop_first() =~= rest.drop_last());
        assert(rest.last() == pairs.last());
        assert(pairs.drop_last()[0] == pairs[0]);
        assert(framed(pairs) =~= framed_text(k) + (framed_text(v) + framed(rest)));
    }
}

/// Different lists of pairs are framed as different bytes: no key or value can pass for a
/// part of another.
pub proof fn law_framing_is_unambiguous(
    a: Seq<(Seq<char>, Seq<char>)>,
    b: Seq<(Seq<char>, Seq<char>)>,
)
    requires
        lengths_fit(a),
        lengths_fit(b),
        framed(a) == framed(b),
    ensures
        a == b,
    decreases a.len(),
{
    bytes::lemma_auto_spec_u64_to_from_le_bytes();
    if a.len() > 0 {
        framed_front(a);
    }
    if b.len() > 0 {
        framed_front(b);
    }
    if a.len() > 0 && b.len() > 0 {
        let x = a.drop_first();
        let y = b.drop_first();
        framed_text_front(
            a[0].0,
            b[0].0,
            framed_text(a[0].1) + framed(x),
            framed_text(b[0].1) + framed(y),
        );
        framed_text_front(a[0].1, b[0].1, framed(x), framed(y));
        assert(lengths_fit(x)) by {
            assert forall|i: int| 0 <= i < x.len() implies {
                &&& utf8::encode_utf8((#[trigger] x[i]).0).len() <= u64::MAX
                &&& utf8::encode_utf8(x[i].1).len() <= u64::MAX
            } by {
                assert(x[i] == a[i + 1]);
            }
        }
        assert(lengths_fit(y)) by {
            assert forall|i: int| 0 <= i < y.len() implies {
                &&& utf8::encode_utf8((#[trigger] y[i]).0).len() <= u64::MAX
                &&& utf8::encode_utf8(y[i].1).len() <= u64::MAX
            } by {
                assert(y[i] == b[i + 1]);
            }
        }
        law_framing_is_unambiguous(x, y);
        assert(a =~= seq![a[0]] + x);
        assert(b =~= seq![b[0]] + y);
        assert(a[0] == b[0]);
    } else if a.len() == 0 && b.len() == 0 {
        assert(a =~= b);
    } else if a.len() > 0 {
        assert(framed(a).len() > 0);
    } else {
        assert(framed(b).len() > 0);
    }
}

/// Different environments are digested from different bytes.
pub proof fn law_environments_are_digested_apart(a: &EnvMap, b: &EnvMap)
    requires
        a.wf(),
        b.wf(),
        lengths_fit(a.listing()),
        lengths_fit(b.listing()),
        a@ != b@,
    ensures
        framed_env(a@) != framed_env(b@),
{
    a.lemma_listing();
    b.lemma_listing();
    if framed_env(a@) == framed_env(b@) {
        law_framing_is_unambiguous(a.listing(), b.listing());
        assert(keyed::to_map(a.listing()) == keyed::to_map(b.listing()));
    }
}

} // verus!
