use vstd::prelude::*;
use vstd::std_specs::iter::IteratorSpec;
use crate::vdchar::{alphabet, lemma_alphabet_unique, push_char, is_allowed, VDChar, ALPHABET_SIZE};

verus! {

/// The text of a sequence of symbols: each symbol's character, in order.
pub open spec fn render(s: Seq<VDChar>) -> Seq<char> {
    s.map_values(|v: VDChar| v.spec_char())
}

/// Whether every character of `s` is a member of the alphabet.
pub open spec fn all_allowed(s: Seq<char>) -> bool {
    forall|i: int| 0 <= i < s.len() ==> is_allowed(#[trigger] s[i])
}

/// Whether position `k` holds the first character of `s` outside the alphabet.
pub open spec fn first_invalid_at(s: Seq<char>, k: int) -> bool {
    &&& 0 <= k < s.len()
    &&& !is_allowed(s[k])
    &&& forall|j: int| 0 <= j < k ==> is_allowed(#[trigger] s[j])
}

/// Whether every symbol of `s` lies within the alphabet.
pub open spec fn all_in_range(s: Seq<VDChar>) -> bool {
    forall|i: int| 0 <= i < s.len() ==> (#[trigger] s[i]).index() < ALPHABET_SIZE
}

/// The text of in-range symbols is accepted by validation, and no other
/// such sequence has the same text: parsing the text of a code gives back
/// that code's symbols.
pub proof fn lemma_render_round_trip(v: Seq<VDChar>, w: Seq<VDChar>)
    requires
        all_in_range(v),
        all_in_range(w),
    ensures
        all_allowed(render(v)),
        render(v) == render(w) ==> v == w,
{
    broadcast use VDChar::lemma_index_injective;

    lemma_alphabet_unique();
    assert forall|i: int| 0 <= i < render(v).len() implies is_allowed(#[trigger] render(v)[i]) by {
        assert(render(v)[i] == alphabet()[v[i].index() as int]);
    }
    if render(v) == render(w) {
        assert(v.len() == render(v).len());
        assert(w.len() == render(w).len());
        assert forall|i: int| 0 <= i < v.len() implies v[i] == w[i] by {
            assert(render(v)[i] == render(w)[i]);
            assert(alphabet()[v[i].index() as int] == alphabet()[w[i].index() as int]);
            assert(v[i].index() == w[i].index());
        }
        assert(v =~= w);
    }
}

/// Error returned when text holds a character outside the alphabet.
#[derive(Debug, Clone, PartialEq, Eq)]
pub enum VDStringError {
    /// The first character of the input that is not in the alphabet.
    InvalidChar(char),
}

/// A validated, immutable sequence of [`VDChar`]s together with its text.
#[derive(Debug, PartialEq, Eq, Hash)]
pub struct VDString {
    chars: Vec<VDChar>,
    cache: String,
}

impl View for VDString {
    type V = Seq<VDChar>;

    closed spec fn view(&self) -> Seq<VDChar> {
        self.chars@
    }
}

impl VDString {
    #[verifier::type_invariant]
    spec fn inv(self) -> bool {
        &&& self.cache@ == render(self.chars@)
        &&& all_in_range(self.chars@)
    }

    /// Builds the code from symbols, computing its text once.
    pub fn new(chars: Vec<VDChar>) -> (r: VDString)
        ensures
            r@ == chars@,
    {
        let mut cache = String::new();
        let mut i: usize = 0;
        while i < chars.len()
            invariant
                i <= chars@.len(),
                cache@ == render(chars@.take(i as int)),
                all_in_range(chars@.take(i as int)),
            decreases chars@.len() - i,
        {
            let c = chars[i].as_char();
            push_char(&mut cache, c);
            proof {
                assert(chars@.take(i + 1) == chars@.take(i as int).push(chars@[i as int]));
                assert(render(chars@.take(i + 1)) == render(chars@.take(i as int)).push(c));
            }
            i += 1;
        }
        proof {
            assert(chars@.take(i as int) == chars@);
        }
        VDString { chars, cache }
    }

    /// Validates `s` character by character; the first character outside
    /// the alphabet is reported.
    pub fn parse(s: &str) -> (r: Result<VDString, VDStringError>)
        ensures
            r is Ok <==> all_allowed(s@),
            r matches Ok(v) ==> render(v@) == s@,
            r matches Err(VDStringError::InvalidChar(c)) ==> exists|k: int|
                first_invalid_at(s@, k) && s@[k] == c,
    {
        let mut chars: Vec<VDChar> = Vec::new();
        for c in iter: s.chars()
            invariant
                iter.seq() == s@,
                chars@.len() == iter.index(),
                render(chars@) == s@.take(iter.index() as int),
                all_allowed(s@.take(iter.index() as int)),
        {
            match VDChar::new(c) {
                Some(v) => {
                    chars.push(v);
                    proof {
                        assert(s@.take(iter.index() + 1) == s@.take(iter.index() as int).push(c));
                    }
                },
                None => {
                    proof {
                        let k = iter.index() as int;
                        assert forall|j: int| 0 <= j < k implies is_allowed(#[trigger] s@[j]) by {
                            assert(s@.take(k)[j] == s@[j]);
                        }
                        assert(first_invalid_at(s@, k));
                    }
                    return Err(VDStringError::InvalidChar(c));
                },
            }
        }
        proof {
            assert(s@.take(s@.len() as int) == s@);
        }
        Ok(VDString::new(chars))
    }

    /// Number of symbols.
    pub fn len(&self) -> (n: usize)
        ensures
            n == self@.len(),
    {
        self.chars.len()
    }

    /// Whether the code holds no symbol.
    pub fn is_empty(&self) -> (b: bool)
        ensures
            b == (self@.len() == 0),
    {
        self.chars.len() == 0
    }

    /// The symbol at position `i`.
    pub fn symbol_at(&self, i: usize) -> (v: VDChar)
        requires
            i < self@.len(),
        ensures
            v == self@[i as int],
    {
        self.chars[i]
    }

    /// The symbols, in order.
    pub fn as_vdchars(&self) -> (s: &[VDChar])
        ensures
            s@ == self@,
    {
        self.chars.as_slice()
    }

    /// Walks the symbols in order; each call starts afresh.
    pub fn iter(&self) -> (it: core::slice::Iter<'_, VDChar>)
        ensures
            it.remaining() == self@.as_ref(),
    {
        self.chars.iter()
    }

    /// The text: each symbol's character, in order.
    pub fn as_str(&self) -> (s: &str)
        ensures
            s@ == render(self@),
    {
        proof {
            use_type_invariant(self);
        }
        self.cache.as_str()
    }
}

impl Clone for VDString {
    fn clone(&self) -> (r: VDString)
        ensures
            r@ == self@,
    {
        VDString::new(self.chars.clone())
    }
}

impl core::ops::Deref for VDString {
    type Target = str;

    fn deref(&self) -> (s: &str)
        ensures
            s@ == render(self@),
    {
        self.as_str()
    }
}

impl core::str::FromStr for VDString {
    type Err = VDStringError;

    fn from_str(s: &str) -> (r: Result<VDString, VDStringError>)
        ensures
            r is Ok <==> all_allowed(s@),
            r matches Ok(v) ==> render(v@) == s@,
            r matches Err(VDStringError::InvalidChar(c)) ==> exists|k: int|
                first_invalid_at(s@, k) && s@[k] == c,
    {
        VDString::parse(s)
    }
}

/// No spec-level result is declared for the conversion: a code holds its text
/// in a `String`, which no spec value can be built from. `try_from` below
/// states its result in its own `ensures`, the same as [`VDString::parse`].
impl<'a> vstd::std_specs::convert::TryFromSpecImpl<&'a str> for VDString {
    open spec fn obeys_try_from_spec() -> bool {
        false
    }

    open spec fn try_from_spec(s: &'a str) -> Result<VDString, VDStringError> {
        arbitrary()
    }
}

impl<'a> TryFrom<&'a str> for VDString {
    type Error = VDStringError;

    fn try_from(s: &'a str) -> (r: Result<VDString, VDStringError>)
        ensures
            r is Ok <==> all_allowed(s@),
            r matches Ok(v) ==> render(v@) == s@,
            r matches Err(VDStringError::InvalidChar(c)) ==> exists|k: int|
                first_invalid_at(s@, k) && s@[k] == c,
    {
        VDString::parse(s)
    }
}

} // verus!
