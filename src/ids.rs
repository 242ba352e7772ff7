use vstd::prelude::*;
use vstd::utf8::encode_utf8;
use vstd::utf8::is_ascii_chars;
use std::marker::PhantomData;

verus! {

broadcast use vstd::string::group_string_axioms;

/// The 32 symbols an identifier may hold; the symbol at position `i` stands for the
/// 5-bit value `i`. No two of them are easily confused when read or written by hand.
pub const ZBASE32_ALPHABET: &'static str = "ybndrfg8ejkmcpqxot1uwisza345h769";

/// The alphabet as a sequence of characters.
pub open spec fn alphabet() -> Seq<char> {
    seq![
        'y', 'b', 'n', 'd', 'r', 'f', 'g', '8', 'e', 'j', 'k', 'm', 'c', 'p', 'q', 'x', 'o', 't',
        '1', 'u', 'w', 'i', 's', 'z', 'a', '3', '4', '5', 'h', '7', '6', '9',
    ]
}

pub open spec fn is_alphabet_char(c: char) -> bool {
    alphabet().contains(c)
}

/// The textual form of a valid identifier: exactly eight symbols of the alphabet.
pub open spec fn is_id_text(s: Seq<char>) -> bool {
    &&& s.len() == 8
    &&& forall|i: int| 0 <= i < s.len() ==> is_alphabet_char(#[trigger] s[i])
}

/// What validation says of a candidate text. Its length is counted in characters.
pub open spec fn validation(s: Seq<char>) -> Result<(), Zbase32IdError> {
    if s.len() != 8 {
        Err(Zbase32IdError::InvalidLength)
    } else if exists|i: int| 0 <= i < s.len() && !is_alphabet_char(#[trigger] s[i]) {
        Err(Zbase32IdError::InvalidCharacters)
    } else {
        Ok(())
    }
}

/// What decoding a candidate text gives: the text itself as an identifier's symbols, or
/// the reason it was refused.
pub open spec fn decoded(s: Seq<char>) -> Result<Seq<char>, Zbase32IdError> {
    match validation(s) {
        Ok(()) => Ok(s),
        Err(e) => Err(e),
    }
}

/// Why a text is not an identifier.
///
/// `Empty` is never produced by validation: an empty text fails the length check first,
/// so it is reported as `InvalidLength`. The variant is kept so that stored or transmitted
/// error values naming it can still be read back.
#[derive(Debug, PartialEq, Eq, Structural, Clone, Copy, Hash)]
pub enum Zbase32IdError {
    InvalidLength,
    InvalidCharacters,
    Empty,
}

/// The fixed explanation that goes with each error.
pub open spec fn message(e: Zbase32IdError) -> Seq<char> {
    match e {
        Zbase32IdError::InvalidLength => "Invalid Zbase32 ID: length must be 8 characters"@,
        Zbase32IdError::InvalidCharacters => "Invalid Zbase32 ID: contains invalid characters"@,
        Zbase32IdError::Empty => "Invalid Zbase32 ID: empty string"@,
    }
}

/// What is said of a text that is none of the explanations.
pub open spec fn unknown_message(s: Seq<char>) -> Seq<char> {
    "Unknown Zbase32 ID error: "@ + s
}

/// Tells whether two texts hold the same characters.
fn same_text(a: &str, b: &str) -> (r: bool)
    ensures
        r == (a@ == b@),
{
    let n = a.unicode_len();
    if n != b.unicode_len() {
        return false;
    }
    let mut i: usize = 0;
    while i < n
        invariant
            n == a@.len() == b@.len(),
            0 <= i <= n,
            forall|j: int| 0 <= j < i ==> a@[j] == b@[j],
        decreases n - i,
    {
        if a.get_char(i) != b.get_char(i) {
            return false;
        }
        i = i + 1;
    }
    assert(a@ =~= b@);
    true
}

impl Zbase32IdError {
    /// The fixed explanation of this error.
    pub fn to_string(&self) -> (r: String)
        ensures
            r@ == message(*self),
    {
        match self {
            Zbase32IdError::InvalidLength => String::from_str(
                "Invalid Zbase32 ID: length must be 8 characters",
            ),
            Zbase32IdError::InvalidCharacters => String::from_str(
                "Invalid Zbase32 ID: contains invalid characters",
            ),
            Zbase32IdError::Empty => String::from_str("Invalid Zbase32 ID: empty string"),
        }
    }

    /// The error whose explanation is `s`; for any other text, a message that names it.
    pub fn from_message(s: &str) -> (r: Result<Zbase32IdError, String>)
        ensures
            match r {
                Ok(e) => message(e) == s@,
                Err(m) => m@ == unknown_message(s@) && forall|e: Zbase32IdError|
                    message(e) != s@,
            },
    {
        proof {
            lemma_messages_differ();
        }
        if same_text(s, "Invalid Zbase32 ID: length must be 8 characters") {
            Ok(Zbase32IdError::InvalidLength)
        } else if same_text(s, "Invalid Zbase32 ID: contains invalid characters") {
            Ok(Zbase32IdError::InvalidCharacters)
        } else if same_text(s, "Invalid Zbase32 ID: empty string") {
            Ok(Zbase32IdError::Empty)
        } else {
            let mut m = String::from_str("Unknown Zbase32 ID error: ");
            m.append(s);
            Err(m)
        }
    }
}

impl std::str::FromStr for Zbase32IdError {
    type Err = String;

    /// The error whose explanation is `s`; for any other text, a message that names it.
    fn from_str(s: &str) -> (r: Result<Zbase32IdError, String>)
        ensures
            match r {
                Ok(e) => message(e) == s@,
                Err(m) => m@ == unknown_message(s@) && forall|e: Zbase32IdError|
                    message(e) != s@,
            },
    {
        Zbase32IdError::from_message(s)
    }
}

/// The three explanations are different texts, so each error can be read back from its own.
pub proof fn lemma_messages_differ()
    ensures
        forall|e1: Zbase32IdError, e2: Zbase32IdError|
            message(e1) == message(e2) ==> e1 == e2,
{
    reveal_strlit("Invalid Zbase32 ID: length must be 8 characters");
    reveal_strlit("Invalid Zbase32 ID: contains invalid characters");
    reveal_strlit("Invalid Zbase32 ID: empty string");
    assert(message(Zbase32IdError::InvalidLength)[20] != message(
        Zbase32IdError::InvalidCharacters,
    )[20]);
    assert(message(Zbase32IdError::InvalidLength).len() != message(Zbase32IdError::Empty).len());
    assert(message(Zbase32IdError::InvalidCharacters).len() != message(
        Zbase32IdError::Empty,
    ).len());
}

/// Every alphabet symbol is a single ASCII character, its own byte.
pub proof fn lemma_alphabet_char_is_ascii(c: char)
    requires
        is_alphabet_char(c),
    ensures
        '\0' <= c <= '\u{7f}',
        (c as u8) as char == c,
{
    let j = choose|j: int| 0 <= j < alphabet().len() && alphabet()[j] == c;
    assert(0 <= j < 32);
}

/// A text made of alphabet symbols is ASCII, so its UTF-8 form has one byte per symbol.
pub proof fn lemma_alphabet_text_is_ascii(s: Seq<char>)
    requires
        forall|i: int| 0 <= i < s.len() ==> is_alphabet_char(#[trigger] s[i]),
    ensures
        is_ascii_chars(s),
        encode_utf8(s).len() == s.len(),
        forall|i: int| 0 <= i < s.len() ==> (#[trigger] encode_utf8(s)[i]) as char == s[i],
{
    assert forall|i: int| 0 <= i < s.len() implies '\0' <= #[trigger] s[i] <= '\u{7f}' && (
    s[i] as u8) as char == s[i] by {
        lemma_alphabet_char_is_ascii(s[i]);
    }
    vstd::utf8::is_ascii_chars_encode_utf8(s);
}

/// Where `c` stands in the alphabet, if it is one of its symbols.
pub fn alphabet_position(c: char) -> (r: Option<usize>)
    ensures
        match r {
            Some(p) => p < 32 && alphabet()[p as int] == c,
            None => !is_alphabet_char(c),
        },
{
    proof {
        reveal_strlit("ybndrfg8ejkmcpqxot1uwisza345h769");
    }
    assert(ZBASE32_ALPHABET@ =~= alphabet());
    let mut i: usize = 0;
    while i < 32
        invariant
            0 <= i <= 32,
            ZBASE32_ALPHABET@ == alphabet(),
            forall|j: int| 0 <= j < i ==> alphabet()[j] != c,
        decreases 32 - i,
    {
        if ZBASE32_ALPHABET.get_char(i) == c {
            return Some(i);
        }
        i = i + 1;
    }
    None
}

/// Checks a candidate text: eight characters long, and every character an alphabet symbol.
pub fn validate_text(value: &str) -> (r: Result<(), Zbase32IdError>)
    ensures
        r == validation(value@),
{
    let n = value.unicode_len();
    if n != 8 {
        return Err(Zbase32IdError::InvalidLength);
    }
    let mut i: usize = 0;
    while i < n
        invariant
            n == value@.len() == 8,
            0 <= i <= n,
            forall|j: int| 0 <= j < i ==> is_alphabet_char(#[trigger] value@[j]),
        decreases n - i,
    {
        let c = value.get_char(i);
        if alphabet_position(c).is_none() {
            assert(!is_alphabet_char(value@[i as int]));
            return Err(Zbase32IdError::InvalidCharacters);
        }
        i = i + 1;
    }
    Ok(())
}

/// The alphabet's symbols in order, as a vector.
fn alphabet_chars() -> (r: Vec<char>)
    ensures
        r@ == alphabet(),
{
    proof {
        reveal_strlit("ybndrfg8ejkmcpqxot1uwisza345h769");
    }
    assert(ZBASE32_ALPHABET@ =~= alphabet());
    let mut r: Vec<char> = Vec::new();
    let mut i: usize = 0;
    while i < 32
        invariant
            0 <= i <= 32,
            ZBASE32_ALPHABET@ == alphabet(),
            r@ == alphabet().subrange(0, i as int),
        decreases 32 - i,
    {
        r.push(ZBASE32_ALPHABET.get_char(i));
        i = i + 1;
    }
    assert(r@ =~= alphabet());
    r
}

/// Relies on nanoid::format with nanoid's default random source: it appends symbols of
/// `alphabet`, drawn at random, until the text is `size` bytes long. With ASCII symbols
/// that is `size` symbols. It never returns for an empty alphabet or a zero size, and
/// panics for an alphabet longer than 255 symbols.
#[verifier::external_body]
fn random_text(alphabet: &[char], size: usize) -> (r: String)
    requires
        0 < alphabet@.len() <= 255,
        is_ascii_chars(alphabet@),
        0 < size,
    ensures
        r@.len() == size,
        forall|i: int| 0 <= i < r@.len() ==> alphabet@.contains(#[trigger] r@[i]),
{
    nanoid::format(nanoid::rngs::default, alphabet, size)
}

/// The buffer that holds a valid identifier text, one byte per symbol.
fn id_bytes(value: &str) -> (r: [u8; 8])
    requires
        is_id_text(value@),
    ensures
        r@.map_values(|b: u8| b as char) == value@,
{
    proof {
        lemma_alphabet_text_is_ascii(value@);
    }
    let b = value.as_bytes();
    let r = [b[0], b[1], b[2], b[3], b[4], b[5], b[6], b[7]];
    assert(r@.map_values(|b: u8| b as char) =~= value@);
    r
}

/// Marks identifiers of patients.
#[derive(Debug, PartialEq, Eq, Clone, Copy, Hash)]
pub struct Paciente;

/// Marks identifiers of encounters.
#[derive(Debug, PartialEq, Eq, Clone, Copy, Hash)]
pub struct Atendimento;

/// Marks identifiers of documents.
#[derive(Debug, PartialEq, Eq, Clone, Copy, Hash)]
pub struct Documento;

/// Marks identifiers of clinical notes.
#[derive(Debug, PartialEq, Eq, Clone, Copy, Hash)]
pub struct Evolucao;

/// Marks identifiers of care plans.
#[derive(Debug, PartialEq, Eq, Clone, Copy, Hash)]
pub struct PlanoAtendimento;

/// An identifier of an entity of kind `K`: eight alphabet symbols in a fixed buffer.
///
/// Identifiers of different kinds share this one implementation and representation, but
/// are different types: one kind's identifier cannot stand where another's is expected.
#[derive(Debug, Hash)]
pub struct TypedId<K> {
    bytes: [u8; 8],
    kind: PhantomData<K>,
}

pub type PacienteId = TypedId<Paciente>;

pub type AtendimentoId = TypedId<Atendimento>;

pub type DocumentoId = TypedId<Documento>;

pub type EvolucaoId = TypedId<Evolucao>;

pub type PlanoAtendimentoId = TypedId<PlanoAtendimento>;

impl<K> View for TypedId<K> {
    type V = Seq<char>;

    /// The identifier's symbols.
    closed spec fn view(&self) -> Seq<char> {
        self.bytes@.map_values(|b: u8| b as char)
    }
}

impl<K> Clone for TypedId<K> {
    fn clone(&self) -> (r: Self)
        ensures
            r@ == self@,
    {
        proof {
            use_type_invariant(self);
        }
        TypedId { bytes: self.bytes, kind: PhantomData }
    }
}

impl<K> Copy for TypedId<K> {

}

impl<K> PartialEq for TypedId<K> {
    fn eq(&self, other: &Self) -> (r: bool) {
        let mut i: usize = 0;
        while i < 8
            invariant
                0 <= i <= 8,
                forall|j: int| 0 <= j < i ==> self.bytes@[j] == other.bytes@[j],
            decreases 8 - i,
        {
            if self.bytes[i] != other.bytes[i] {
                assert(self@[i as int] != other@[i as int]);
                return false;
            }
            i = i + 1;
        }
        assert(self@ =~= other@);
        true
    }
}

impl<K> vstd::std_specs::cmp::PartialEqSpecImpl for TypedId<K> {
    open spec fn obeys_eq_spec() -> bool {
        true
    }

    /// Two identifiers are equal when they hold the same symbols.
    open spec fn eq_spec(&self, other: &Self) -> bool {
        self@ == other@
    }
}

impl<K> Eq for TypedId<K> {

}

impl<K> Default for TypedId<K> {
    /// A freshly generated identifier.
    fn default() -> (r: Self)
        ensures
            is_id_text(r@),
    {
        Self::new()
    }
}

impl<K> std::str::FromStr for TypedId<K> {
    type Err = Zbase32IdError;

    /// Parses a text into an identifier, after validating it.
    fn from_str(value: &str) -> (r: Result<Self, Zbase32IdError>)
        ensures
            match r {
                Ok(id) => decoded(value@) == Ok::<Seq<char>, Zbase32IdError>(id@),
                Err(e) => decoded(value@) == Err::<Seq<char>, Zbase32IdError>(e),
            },
    {
        Self::try_from_str(value)
    }
}

impl<K> TypedId<K> {
    #[verifier::type_invariant]
    spec fn holds_id_text(&self) -> bool {
        is_id_text(self@)
    }

    /// The identifier's textual form.
    pub fn to_string(&self) -> (r: String)
        ensures
            r@ == self@,
            is_id_text(r@),
    {
        proof {
            use_type_invariant(self);
            reveal_strlit("ybndrfg8ejkmcpqxot1uwisza345h769");
        }
        assert(ZBASE32_ALPHABET@ =~= alphabet());
        assert(is_ascii_chars(ZBASE32_ALPHABET@)) by {
            lemma_alphabet_text_is_ascii(alphabet());
        }
        let mut r = String::new();
        let mut i: usize = 0;
        while i < 8
            invariant
                0 <= i <= 8,
                is_id_text(self@),
                ZBASE32_ALPHABET@ == alphabet(),
                is_ascii_chars(ZBASE32_ALPHABET@),
                r@ == self@.subrange(0, i as int),
            decreases 8 - i,
        {
            let c = self.bytes[i] as char;
            assert(c == self@[i as int]);
            let p = match alphabet_position(c) {
                Some(p) => p,
                None => {
                    assert(false);
                    0
                },
            };
            let symbol = ZBASE32_ALPHABET.substring_ascii(p, p + 1);
            r.append(symbol);
            assert(r@ =~= self@.subrange(0, i + 1));
            i = i + 1;
        }
        assert(r@ =~= self@);
        r
    }
}

/// An identifier type of the family: generated at random, parsed from text after
/// validation, rendered back to the same text.
pub trait Zbase32Id: Sized {
    /// The identifier's symbols.
    spec fn symbols(&self) -> Seq<char>;

    /// A fresh identifier of eight symbols drawn at random.
    fn new() -> (r: Self)
        ensures
            is_id_text(r.symbols()),
            validation(r.symbols()) is Ok,
            decoded(r.symbols()) == Ok::<Seq<char>, Zbase32IdError>(r.symbols()),
    ;

    /// Checks a candidate text: eight characters long, and every character an alphabet symbol.
    fn validate_str(value: &str) -> (r: Result<(), Zbase32IdError>)
        ensures
            r == validation(value@),
    {
        validate_text(value)
    }

    /// Parses a text into an identifier, after validating it.
    fn try_from_str(value: &str) -> (r: Result<Self, Zbase32IdError>)
        ensures
            match r {
                Ok(id) => decoded(value@) == Ok::<Seq<char>, Zbase32IdError>(id.symbols()),
                Err(e) => decoded(value@) == Err::<Seq<char>, Zbase32IdError>(e),
            },
    ;
}

impl<K> Zbase32Id for TypedId<K> {
    open spec fn symbols(&self) -> Seq<char> {
        self@
    }

    fn new() -> (r: Self) {
        let symbols = alphabet_chars();
        proof {
            lemma_alphabet_text_is_ascii(alphabet());
        }
        let text = random_text(symbols.as_slice(), 8);
        proof {
            lemma_round_trip(text@);
        }
        TypedId { bytes: id_bytes(text.as_str()), kind: PhantomData }
    }

    fn try_from_str(value: &str) -> (r: Result<Self, Zbase32IdError>) {
        match validate_text(value) {
            Ok(()) => {
                proof {
                    lemma_valid_text_is_id_text(value@);
                }
                Ok(TypedId { bytes: id_bytes(value), kind: PhantomData })
            },
            Err(e) => Err(e),
        }
    }
}

/// Every text of eight alphabet symbols passes validation and decodes to an identifier
/// whose textual form is that same text.
pub proof fn lemma_round_trip(s: Seq<char>)
    requires
        is_id_text(s),
    ensures
        validation(s) is Ok,
        decoded(s) == Ok::<Seq<char>, Zbase32IdError>(s),
{
    lemma_alphabet_text_is_ascii(s);
}

/// An eight-character text holding a character outside the alphabet is refused for its
/// characters.
pub proof fn lemma_character_rejection(s: Seq<char>, i: int)
    requires
        s.len() == 8,
        0 <= i < s.len(),
        !is_alphabet_char(s[i]),
    ensures
        decoded(s) == Err::<Seq<char>, Zbase32IdError>(Zbase32IdError::InvalidCharacters),
{
}

/// A text that passes validation is an identifier text.
pub proof fn lemma_valid_text_is_id_text(s: Seq<char>)
    requires
        validation(s) is Ok,
    ensures
        is_id_text(s),
{
    lemma_alphabet_text_is_ascii(s);
}

} // verus!
