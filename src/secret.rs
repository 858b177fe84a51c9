//! A text buffer for secrets that is overwritten when it is released.

use vstd::prelude::*;
use vstd::string::StringExecFns;
use vstd::string::StringSliceAdditionalSpecFns;
use zeroize::Zeroizing;

verus! {

/// Sensitive text (a password or a key salt). The text lives in a
/// `zeroize::Zeroizing<String>`, so its memory is overwritten when the buffer
/// is dropped; Verus sees the buffer only through `secret_text`.
#[verifier::external_body]
pub struct SecretBuffer {
    inner: Zeroizing<String>,
}

/// The text held by a secret buffer.
pub uninterp spec fn secret_text(b: SecretBuffer) -> Seq<char>;

impl View for SecretBuffer {
    type V = Seq<char>;

    open spec fn view(&self) -> Seq<char> {
        secret_text(*self)
    }
}

/// Relies on `Zeroizing::new`: the wrapper holds exactly the given value.
#[verifier::external_body]
fn secret_wrap(s: String) -> (r: SecretBuffer)
    ensures
        secret_text(r) == s@,
{
    SecretBuffer { inner: Zeroizing::new(s) }
}

/// Relies on `Deref for Zeroizing`: it hands out the wrapped value.
#[verifier::external_body]
fn secret_str(b: &SecretBuffer) -> (r: &str)
    ensures
        r@ == secret_text(*b),
{
    b.inner.as_str()
}

/// Relies on `Clone for Zeroizing`: it clones the wrapped value.
#[verifier::external_body]
fn secret_clone(b: &SecretBuffer) -> (r: SecretBuffer)
    ensures
        secret_text(r) == secret_text(*b),
{
    SecretBuffer { inner: b.inner.clone() }
}

/// The text that stands for a secret wherever a buffer is described.
pub open spec fn redaction_text() -> Seq<char> {
    seq!['<', 'r', 'e', 'd', 'a', 'c', 't', 'e', 'd', '>']
}

/// `needle` occurs somewhere in `hay` as a contiguous run.
pub open spec fn contains_run(hay: Seq<char>, needle: Seq<char>) -> bool {
    exists|i: int|
        0 <= i && i + needle.len() <= hay.len() && #[trigger] hay.subrange(i, i + needle.len())
            == needle
}

impl SecretBuffer {
    pub fn new(text: String) -> (r: SecretBuffer)
        ensures
            r@ == text@,
    {
        secret_wrap(text)
    }

    pub fn empty() -> (r: SecretBuffer)
        ensures
            r@ == Seq::<char>::empty(),
    {
        SecretBuffer::new(String::new())
    }

    pub fn as_str(&self) -> (r: &str)
        ensures
            r@ == self@,
    {
        secret_str(self)
    }

    /// Length of the secret in bytes of its UTF-8 encoding.
    pub fn len(&self) -> (r: usize)
        ensures
            r == vstd::utf8::encode_utf8(self@).len() as usize,
    {
        let s = self.as_str();
        proof {
            assert(s.spec_bytes() == vstd::utf8::encode_utf8(s@));
        }
        s.len()
    }

    pub fn is_empty(&self) -> (r: bool)
        ensures
            r == (self@.len() == 0),
    {
        self.as_str().is_empty()
    }

    /// The buffer as it appears in any description: a fixed marker, never
    /// the secret itself.
    pub fn redacted(&self) -> (r: String)
        ensures
            r@ == redaction_text(),
    {
        let r = String::from_str("<redacted>");
        proof {
            reveal_strlit("<redacted>");
            assert(r@ =~= redaction_text());
        }
        r
    }

    /// Compares two secrets in time that depends on their lengths only, not
    /// on where they differ.
    pub fn ct_eq(&self, other: &SecretBuffer) -> (r: bool)
        ensures
            r == (self@ == other@),
    {
        let a = self.as_str().as_bytes();
        let b = other.as_str().as_bytes();
        let ghost sa = self@;
        let ghost so = other@;
        proof {
            vstd::utf8::encode_utf8_decode_utf8(sa);
            vstd::utf8::encode_utf8_decode_utf8(so);
        }
        let n = if a.len() < b.len() {
            a.len()
        } else {
            b.len()
        };
        let mut diff: u8 = if a.len() == b.len() {
            0
        } else {
            1
        };
        let mut i: usize = 0;
        proof {
            assert(a@.take(0) =~= b@.take(0));
        }
        while i < n
            invariant
                i <= n,
                n <= a@.len(),
                n <= b@.len(),
                n == a@.len() || n == b@.len(),
                (a@.len() == b@.len()) ==> (diff == 0 <==> a@.take(i as int) == b@.take(i as int)),
                (a@.len() != b@.len()) ==> diff != 0,
            decreases n - i,
        {
            let x = a[i];
            let y = b[i];
            let d = diff;
            assert((d | (x ^ y)) == 0u8 <==> (d == 0u8 && x == y)) by (bit_vector);
            assert(d != 0u8 ==> (d | (x ^ y)) != 0u8) by (bit_vector);
            diff = d | (x ^ y);
            proof {
                assert(a@.take(i + 1) == a@.take(i as int).push(x));
                assert(b@.take(i + 1) == b@.take(i as int).push(y));
                if a@.take(i as int) == b@.take(i as int) && x == y {
                    assert(a@.take(i + 1) =~= b@.take(i + 1));
                }
                if a@.take(i + 1) == b@.take(i + 1) {
                    assert(a@.take(i + 1)[i as int] == b@.take(i + 1)[i as int]);
                    assert(a@.take(i as int) =~= a@.take(i + 1).take(i as int));
                    assert(b@.take(i as int) =~= b@.take(i + 1).take(i as int));
                }
            }
            i = i + 1;
        }
        proof {
            if a@.len() == b@.len() {
                assert(a@.take(n as int) =~= a@);
                assert(b@.take(n as int) =~= b@);
            }
            if sa == so {
                assert(a@ == b@);
            }
        }
        diff == 0
    }

    pub fn duplicate(&self) -> (r: SecretBuffer)
        ensures
            r@ == self@,
    {
        secret_clone(self)
    }
}

} // verus!
