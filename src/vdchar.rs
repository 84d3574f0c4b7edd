use vstd::prelude::*;

verus! {

/// Number of characters in the alphabet.
pub const ALPHABET_SIZE: usize = 31;

/// The alphabet, in its canonical index order.
///
/// It leaves out the ambiguous glyphs `O`, `0`, `I` and `1`, and every
/// lowercase letter.
pub const VDS_ALLOWED: [char; 31] = [
    'A', 'B', 'C', 'D', 'E', 'F', 'G', 'H', 'J', 'K',
    'M', 'N', 'P', 'Q', 'R', 'S', 'T', 'U', 'V', 'W',
    'X', 'Y', 'Z', '2', '3', '4', '5', '6', '7', '8', '9',
];

/// The alphabet as a sequence.
pub open spec fn alphabet() -> Seq<char> {
    seq![
        'A', 'B', 'C', 'D', 'E', 'F', 'G', 'H', 'J', 'K',
        'M', 'N', 'P', 'Q', 'R', 'S', 'T', 'U', 'V', 'W',
        'X', 'Y', 'Z', '2', '3', '4', '5', '6', '7', '8', '9',
    ]
}

/// The character that a symbol index stands for.
pub open spec fn char_at(i: nat) -> char {
    alphabet()[i as int]
}

/// Whether `c` is a member of the alphabet.
pub open spec fn is_allowed(c: char) -> bool {
    alphabet().contains(c)
}

/// No character occurs twice in the alphabet, so a member has one index.
pub proof fn lemma_alphabet_unique()
    ensures
        alphabet().len() == ALPHABET_SIZE,
        alphabet().no_duplicates(),
{
    assert(alphabet().no_duplicates());
}

/// Lowercase letters and the ambiguous glyphs `O`, `0`, `I` and `1` are not
/// members of the alphabet, so validation rejects them.
pub proof fn lemma_excluded_rejected(c: char)
    requires
        ('a' <= c <= 'z') || c == 'O' || c == '0' || c == 'I' || c == '1',
    ensures
        !is_allowed(c),
{
    assert forall|i: int| 0 <= i < alphabet().len() implies alphabet()[i] != c by {}
}

/// Relies on `String::push`: appends one character to the text.
#[verifier::external_body]
pub(crate) fn push_char(s: &mut String, c: char)
    ensures
        final(s)@ == old(s)@.push(c),
{
    s.push(c)
}

/// A single character of the alphabet, held as its index.
#[derive(Debug, Clone, Copy, PartialEq, Eq, Structural, PartialOrd, Ord, Hash)]
pub struct VDChar(u8);

impl VDChar {
    #[verifier::type_invariant]
    spec fn inv(self) -> bool {
        self.0 < ALPHABET_SIZE
    }

    /// The position of this character in the alphabet.
    pub closed spec fn index(self) -> nat {
        self.0 as nat
    }

    /// Two symbols are equal exactly when their indices are.
    pub broadcast proof fn lemma_index_injective(a: VDChar, b: VDChar)
        ensures
            #[trigger] a.index() == #[trigger] b.index() <==> a == b,
    {
    }

    /// The character this value stands for.
    pub open spec fn spec_char(self) -> char {
        char_at(self.index())
    }

    /// The symbol at position `i` of the alphabet.
    pub(crate) fn from_index(i: usize) -> (r: VDChar)
        requires
            i < ALPHABET_SIZE,
        ensures
            r.index() == i,
    {
        VDChar(i as u8)
    }

    /// Looks `c` up in the alphabet; `None` when it is not a member.
    pub fn new(c: char) -> (r: Option<VDChar>)
        ensures
            r is Some <==> is_allowed(c),
            r matches Some(v) ==> v.index() < ALPHABET_SIZE && v.spec_char() == c,
    {
        let table = VDS_ALLOWED;
        let mut i: usize = 0;
        while i < ALPHABET_SIZE
            invariant
                table@ == alphabet(),
                i <= ALPHABET_SIZE,
                forall|j: int| 0 <= j < i ==> alphabet()[j] != c,
            decreases ALPHABET_SIZE - i,
        {
            if table[i] == c {
                return Some(VDChar::from_index(i));
            }
            i += 1;
        }
        None
    }

    /// The character of the alphabet this value stands for.
    pub fn as_char(self) -> (c: char)
        ensures
            c == self.spec_char(),
            self.index() < ALPHABET_SIZE,
            is_allowed(c),
    {
        proof {
            use_type_invariant(self);
        }
        let table = VDS_ALLOWED;
        table[self.0 as usize]
    }

    /// The character as a one-character string.
    pub fn to_string(&self) -> (s: String)
        ensures
            s@ == seq![self.spec_char()],
    {
        let mut s = String::new();
        push_char(&mut s, self.as_char());
        s
    }
}

} // verus!
