use vstd::prelude::*;

use crate::errors::Error;

verus! {

/// An immutable pattern template: a `prefix`, a single repeated `infix`
/// character, and a `suffix`. Replacement strings of any requested length
/// are generated from it by [`Nyaaan::nyaaan`].
#[derive(Debug, PartialEq, Eq)]
pub struct Nyaaan {
    prefix: String,
    infix: char,
    suffix: String,
}

/// The mathematical content of a [`Nyaaan`] template: the three fields as
/// sequences of characters.
pub struct NyaaanView {
    pub prefix: Seq<char>,
    pub infix: char,
    pub suffix: Seq<char>,
}

impl View for Nyaaan {
    type V = NyaaanView;

    closed spec fn view(&self) -> NyaaanView {
        NyaaanView { prefix: self.prefix@, infix: self.infix, suffix: self.suffix@ }
    }
}

/// How many infix characters a generated string of `len` characters holds:
/// none while the prefix alone covers the request, exactly one while the
/// prefix plus suffix still cover it, and otherwise however many are needed
/// so that prefix, infix run and suffix together are exactly `len` long.
pub open spec fn spec_infix_len(t: NyaaanView, len: nat) -> nat {
    if len <= t.prefix.len() {
        0
    } else if len <= t.prefix.len() + t.suffix.len() {
        1
    } else {
        (len - t.prefix.len() - t.suffix.len()) as nat
    }
}

/// The generated string of `len` characters: the prefix, then the infix
/// repeated [`spec_infix_len`] times, then the suffix, truncated to the
/// first `len` characters.
pub open spec fn spec_generate(t: NyaaanView, len: nat) -> Seq<char> {
    (t.prefix + Seq::new(spec_infix_len(t, len), |i: int| t.infix) + t.suffix).take(len as int)
}

/// Every generated string is exactly as long as requested.
pub proof fn lemma_generate_len(t: NyaaanView, len: nat)
    ensures
        spec_generate(t, len).len() == len,
{
    let full = t.prefix + Seq::new(spec_infix_len(t, len), |i: int| t.infix) + t.suffix;
    assert(full.len() >= len);
}

/// Generation is a pure function of the template and the length: equal
/// templates and equal requested lengths give equal output.
pub proof fn lemma_generate_deterministic(t1: NyaaanView, t2: NyaaanView, len1: nat, len2: nat)
    requires
        t1 == t2,
        len1 == len2,
    ensures
        spec_generate(t1, len1) == spec_generate(t2, len2),
{
}

/// While the requested length does not exceed the prefix, the generated
/// string is exactly the first `len` characters of the prefix.
pub proof fn lemma_generate_prefix(t: NyaaanView, len: nat)
    requires
        len <= t.prefix.len(),
    ensures
        spec_generate(t, len) == t.prefix.take(len as int),
{
    assert(spec_generate(t, len) =~= t.prefix.take(len as int));
}

/// Once the requested length exceeds prefix and suffix together, nothing is
/// truncated: the generated string is the whole prefix, then the infix
/// repeated `len - |prefix| - |suffix|` times, then the whole suffix.
pub proof fn lemma_generate_long(t: NyaaanView, len: nat)
    requires
        len > t.prefix.len() + t.suffix.len(),
    ensures
        spec_generate(t, len) == t.prefix + Seq::new(
            (len - t.prefix.len() - t.suffix.len()) as nat,
            |i: int| t.infix,
        ) + t.suffix,
{
    let full = t.prefix + Seq::new(spec_infix_len(t, len), |i: int| t.infix) + t.suffix;
    assert(full.len() == len);
    assert(spec_generate(t, len) =~= full);
}

/// Relies on `String::push`: appends the one character to the string.
#[verifier::external_body]
pub(crate) fn push_char(s: &mut String, c: char)
    ensures
        final(s)@ == old(s)@.push(c),
{
    s.push(c);
}

impl Nyaaan {
    /// Builds a template directly from its three parts, stored verbatim.
    pub fn new(prefix: &str, infix: char, suffix: &str) -> (r: Self)
        ensures
            r@.prefix == prefix@,
            r@.infix == infix,
            r@.suffix == suffix@,
    {
        Self { prefix: prefix.to_owned(), infix, suffix: suffix.to_owned() }
    }

    /// Builds a template from a seed string and a suffix: the seed's last
    /// character becomes the infix, the characters before it the prefix,
    /// and the suffix is stored verbatim. An empty seed is refused.
    pub fn from_nyan(nya: &str, n: &str) -> (r: Result<Self, Error>)
        ensures
            nya@.len() == 0 ==> (r matches Err(e) && e matches Error::Nya(m) && m@ == "nya!"@),
            nya@.len() > 0 ==> (r matches Ok(t) && t@.prefix == nya@.take(nya@.len() - 1)
                && t@.infix == nya@[nya@.len() - 1] && t@.suffix == n@),
    {
        let len = nya.unicode_len();
        if len == 0 {
            return Err(Error::Nya(String::from_str("nya!")));
        }
        let prefix = nya.substring_char(0, len - 1);
        let infix = nya.get_char(len - 1);
        Ok(Self::new(prefix, infix, n))
    }

    /// Generates the replacement string of exactly `len` characters
    /// described by [`spec_generate`].
    pub fn nyaaan(&self, len: usize) -> (r: String)
        ensures
            r@ == spec_generate(self@, len as nat),
            r@.len() == len,
    {
        proof {
            lemma_generate_len(self@, len as nat);
        }
        let p = self.prefix.as_str().unicode_len();
        if len <= p {
            proof {
                lemma_generate_prefix(self@, len as nat);
            }
            let head = self.prefix.as_str().substring_char(0, len);
            return head.to_owned();
        }
        let k = self.infix_len(len);
        let mut out = String::from_str(self.prefix.as_str());
        let mut i: usize = 0;
        while i < k
            invariant
                i <= k,
                out@ == self@.prefix + Seq::new(i as nat, |j: int| self@.infix),
            decreases k - i,
        {
            push_char(&mut out, self.infix);
            proof {
                assert(out@ =~= self@.prefix + Seq::new((i + 1) as nat, |j: int| self@.infix));
            }
            i = i + 1;
        }
        let s = self.suffix.as_str().unicode_len();
        let tail_len = if len - p - k <= s {
            len - p - k
        } else {
            s
        };
        let tail = self.suffix.as_str().substring_char(0, tail_len);
        let r = out.concat(tail);
        proof {
            let full = self@.prefix + Seq::new(spec_infix_len(self@, len as nat), |j: int| self@.infix)
                + self@.suffix;
            assert(r@ =~= full.take(len as int));
        }
        r
    }

    /// The number of infix characters that a generated string of `len`
    /// characters holds, as [`spec_infix_len`] describes.
    fn infix_len(&self, len: usize) -> (r: usize)
        ensures
            r == spec_infix_len(self@, len as nat),
    {
        let p = self.prefix.as_str().unicode_len();
        let s = self.suffix.as_str().unicode_len();
        if len <= p {
            0
        } else if len - p <= s {
            1
        } else {
            len - p - s
        }
    }

    /// The template written out as a sample string: the prefix, three infix
    /// characters, and the suffix.
    pub fn to_string(&self) -> (r: String)
        ensures
            r@ == self@.prefix + Seq::new(3, |i: int| self@.infix) + self@.suffix,
    {
        let mut out = String::from_str(self.prefix.as_str());
        push_char(&mut out, self.infix);
        push_char(&mut out, self.infix);
        push_char(&mut out, self.infix);
        let r = out.concat(self.suffix.as_str());
        proof {
            assert(r@ =~= self@.prefix + Seq::new(3, |i: int| self@.infix) + self@.suffix);
        }
        r
    }
}

} // verus!
