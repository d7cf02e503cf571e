//! Case-insensitive package identity.
use vstd::prelude::*;
use vstd::utf8::is_ascii_chars;
use crate::text::{fold, fold_char, eq_folded, eq_ignore_case};

verus! {

/// A package name known to be ASCII. Two keys are equal when their names are
/// equal once ASCII case is folded; the casing as given is kept for display.
pub struct PackageKey(String);

/// The name that was offered as a key held a character outside ASCII.
pub struct NonAsciiError(pub String);

impl View for PackageKey {
    type V = Seq<char>;

    closed spec fn view(&self) -> Seq<char> {
        self.0@
    }
}

impl PackageKey {
    /// Keys hold ASCII names only.
    pub closed spec fn wf(&self) -> bool {
        is_ascii_chars(self.0@)
    }

    /// A key's name is ASCII.
    #[verifier::type_invariant]
    spec fn inv(&self) -> bool {
        is_ascii_chars(self.0@)
    }

    /// The number of characters of the name.
    pub fn len(&self) -> (r: usize)
        ensures
            r == self@.len(),
    {
        let s = self.0.as_str();
        proof {
            use_type_invariant(self);
            vstd::string::is_ascii_spec_bytes(s);
        }
        s.as_bytes().len()
    }

    /// Byte `i` of what is fed to a hasher: the ASCII lowercase of the name's
    /// bytes, then `0xff`.
    pub fn hash_byte(&self, i: usize) -> (r: u8)
        requires
            i <= self@.len(),
        ensures
            r == self.hash_stream()[i as int],
    {
        let s = self.0.as_str();
        proof {
            use_type_invariant(self);
            vstd::string::is_ascii_spec_bytes(s);
        }
        let bytes = s.as_bytes();
        if i == bytes.len() {
            return 0xff;
        }
        let b = bytes[i];
        proof {
            let c = self.0@[i as int];
            assert(b == c as u8);
            assert('\0' <= c <= '\u{7f}');
            assert(b as char == c);
            assert(fold(self@)[i as int] == fold_char(c));
        }
        fold_byte(b)
    }

    /// The key for `value`, or the error that carries it back when it is not ASCII.
    pub fn try_from(value: String) -> (r: Result<PackageKey, NonAsciiError>)
        ensures
            is_ascii_chars(value@) <==> r is Ok,
            r matches Ok(k) ==> k@ == value@ && k.wf(),
            r matches Err(e) ==> e.0@ == value@,
    {
        if value.as_str().is_ascii() {
            Ok(PackageKey(value))
        } else {
            Err(NonAsciiError(value))
        }
    }

    /// The name as it was given, in the casing it was given in.
    pub fn as_str(&self) -> (r: &str)
        ensures
            r@ == self@,
    {
        self.0.as_str()
    }

    /// The bytes fed to a hasher for this key.
    pub open spec fn hash_stream(&self) -> Seq<u8> {
        fold(self@).map_values(|c: char| c as u8).push(0xffu8)
    }
}

impl PartialEq for PackageKey {
    fn eq(&self, other: &PackageKey) -> (r: bool)
        ensures
            r == eq_folded(self@, other@),
    {
        eq_ignore_case(self.0.as_str(), other.0.as_str())
    }
}

impl vstd::std_specs::cmp::PartialEqSpecImpl for PackageKey {
    open spec fn obeys_eq_spec() -> bool {
        true
    }

    open spec fn eq_spec(&self, other: &PackageKey) -> bool {
        eq_folded(self@, other@)
    }
}

impl Eq for PackageKey {}

/// Relies on `Hasher::write_u8`: hands one byte to the hasher.
#[verifier::external_body]
fn feed_byte<H: core::hash::Hasher>(state: &mut H, b: u8) {
    state.write_u8(b)
}

/// ASCII lowercase of one byte.
fn fold_byte(b: u8) -> (r: u8)
    ensures
        r == fold_char(b as char) as u8,
{
    if 65 <= b && b <= 90 {
        b + 32
    } else {
        b
    }
}

impl core::hash::Hash for PackageKey {
    fn hash<H: core::hash::Hasher>(&self, state: &mut H) {
        let n = self.len();
        let mut i: usize = 0;
        while i <= n
            invariant
                n == self@.len(),
            decreases n + 1 - i,
        {
            feed_byte(state, self.hash_byte(i));
            if i == n {
                break;
            }
            i = i + 1;
        }
    }
}

} // verus!
