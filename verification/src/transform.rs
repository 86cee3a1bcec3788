use vstd::prelude::*;

use crate::template::Nyaaan;
use crate::template::NyaaanView;
use crate::template::push_char;
use crate::template::spec_generate;

verus! {

/// Whether a character counts as part of a word under the Unicode
/// alphanumeric classification.
pub uninterp spec fn is_word_char(c: char) -> bool;

/// Relies on `char::is_alphanumeric`: whether a character is a letter or a
/// digit depends on the character alone.
#[verifier::external_body]
fn check_word_char(c: char) -> (r: bool)
    ensures
        r == is_word_char(c),
{
    c.is_alphanumeric()
}

/// What flushing an accumulated word run of `word_len` characters emits: a
/// generated replacement of that length, or nothing when no run is open.
pub open spec fn spec_flush(t: NyaaanView, word_len: nat) -> Seq<char> {
    if word_len > 0 {
        spec_generate(t, word_len)
    } else {
        Seq::<char>::empty()
    }
}

/// One step of the scanner: a word character only lengthens the open run
/// and emits nothing; any other character flushes the run and is then
/// emitted verbatim. The result is what is emitted, paired with the word
/// run carried into the next step.
pub open spec fn spec_step(t: NyaaanView, word_len: nat, c: char) -> (Seq<char>, nat) {
    if is_word_char(c) {
        (Seq::<char>::empty(), word_len + 1)
    } else {
        (spec_flush(t, word_len).push(c), 0)
    }
}

/// Scanning a whole sequence of characters, starting with an already open
/// word run of `word_len` characters: what is emitted, paired with the word
/// run still open at the end.
pub open spec fn spec_scan(t: NyaaanView, s: Seq<char>, word_len: nat) -> (Seq<char>, nat)
    decreases s.len(),
{
    if s.len() == 0 {
        (Seq::<char>::empty(), word_len)
    } else {
        let head = spec_step(t, word_len, s[0]);
        let rest = spec_scan(t, s.drop_first(), head.1);
        (head.0 + rest.0, rest.1)
    }
}

/// The whole transformation of an input: scan it with no word run open,
/// then flush whatever run is still open at the end of the input.
pub open spec fn spec_nyaanize(t: NyaaanView, s: Seq<char>) -> Seq<char> {
    spec_scan(t, s, 0).0 + spec_flush(t, spec_scan(t, s, 0).1)
}

/// An input without a single word character passes through unchanged.
pub proof fn lemma_passthrough(t: NyaaanView, s: Seq<char>)
    requires
        forall|i: int| 0 <= i < s.len() ==> !is_word_char(s[i]),
    ensures
        spec_nyaanize(t, s) == s,
{
    lemma_scan_passthrough(t, s);
    assert(spec_nyaanize(t, s) =~= s);
}

proof fn lemma_scan_passthrough(t: NyaaanView, s: Seq<char>)
    requires
        forall|i: int| 0 <= i < s.len() ==> !is_word_char(s[i]),
    ensures
        spec_scan(t, s, 0).0 == s,
        spec_scan(t, s, 0).1 == 0,
    decreases s.len(),
{
    if s.len() == 0 {
        assert(spec_scan(t, s, 0).0 =~= s);
    } else {
        let rest = s.drop_first();
        assert forall|i: int| 0 <= i < rest.len() implies !is_word_char(rest[i]) by {
            assert(rest[i] == s[i + 1]);
        }
        lemma_scan_passthrough(t, rest);
        assert(spec_scan(t, s, 0).0 =~= s);
    }
}

/// Scans one chunk of input, carrying the length of the word run left open
/// by the chunks before it. Returns what the chunk emits together with the
/// word run left open for the next chunk.
pub fn nyaanize_chunk(nyaaan: &Nyaaan, chunk: &str, word_len: usize) -> (r: (String, usize))
    requires
        word_len + chunk@.len() <= usize::MAX,
    ensures
        r.0@ == spec_scan(nyaaan@, chunk@, word_len as nat).0,
        r.1 == spec_scan(nyaaan@, chunk@, word_len as nat).1,
{
    let ghost t = nyaaan@;
    let ghost whole = spec_scan(t, chunk@, word_len as nat);
    let n = chunk.unicode_len();
    let mut out = String::new();
    let mut wl = word_len;
    let mut i: usize = 0;
    proof {
        assert(chunk@.skip(0) =~= chunk@);
        assert(out@ + spec_scan(t, chunk@, word_len as nat).0 =~= whole.0);
    }
    while i < n
        invariant
            i <= n,
            n == chunk@.len(),
            word_len + n <= usize::MAX,
            wl <= word_len + i,
            t == nyaaan@,
            whole == spec_scan(t, chunk@, word_len as nat),
            out@ + spec_scan(t, chunk@.skip(i as int), wl as nat).0 == whole.0,
            spec_scan(t, chunk@.skip(i as int), wl as nat).1 == whole.1,
        decreases n - i,
    {
        let ghost pre = chunk@.skip(i as int);
        let ghost wl0 = wl as nat;
        let ghost out0 = out@;
        let ghost here = spec_scan(t, pre, wl0);
        proof {
            assert(pre.len() == n - i);
            assert(pre[0] == chunk@[i as int]);
            assert(pre.drop_first() =~= chunk@.skip(i as int + 1));
        }
        let c = chunk.get_char(i);
        if check_word_char(c) {
            wl = wl + 1;
            proof {
                assert(here.0 =~= spec_scan(t, chunk@.skip(i as int + 1), wl0 + 1).0);
            }
        } else {
            if wl > 0 {
                let gen = nyaaan.nyaaan(wl);
                out.append(gen.as_str());
                wl = 0;
            }
            push_char(&mut out, c);
            proof {
                assert(out@ =~= out0 + spec_flush(t, wl0).push(pre[0]));
                assert(out@ + spec_scan(t, chunk@.skip(i as int + 1), 0).0 =~= whole.0);
            }
        }
        i = i + 1;
    }
    proof {
        assert(chunk@.skip(n as int) =~= Seq::<char>::empty());
        assert(out@ =~= whole.0);
    }
    (out, wl)
}

/// Flushes the word run left open at the end of the input: emits a
/// generated replacement of its length, or nothing when no run is open.
pub fn flush(nyaaan: &Nyaaan, word_len: usize) -> (r: String)
    ensures
        r@ == spec_flush(nyaaan@, word_len as nat),
{
    if word_len > 0 {
        nyaaan.nyaaan(word_len)
    } else {
        String::new()
    }
}

/// Rewrites a whole input in one call: every maximal run of word characters
/// becomes a generated replacement of the same length, and every other
/// character passes through verbatim, as [`spec_nyaanize`] describes.
pub fn nyaanize(nyaaan: &Nyaaan, input: &str) -> (r: String)
    ensures
        r@ == spec_nyaanize(nyaaan@, input@),
{
    let n = input.unicode_len();
    let scanned = nyaanize_chunk(nyaaan, input, 0);
    let tail = flush(nyaaan, scanned.1);
    scanned.0.concat(tail.as_str())
}

} // verus!
