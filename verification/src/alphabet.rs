//! Alphabet construction: three orthogonal option enumerations select which
//! ASCII character blocks make up the digit corpus, and in which order the
//! letters appear. The corpus is the ordered digit alphabet of the numeral
//! system: the character at index `v` stands for digit value `v`.
use vstd::prelude::*;

verus! {

use vstd::utf8::is_ascii_chars;

/// Which punctuation characters take part in the corpus.
#[derive(Clone, Copy, PartialEq, Eq, Structural, Debug)]
pub enum RadixSymbols {
    /// Every printable non-alphanumeric ASCII character.
    All,
    /// Same as `All` with `/` left out, so output can serve as a path component.
    UnixSafe,
    /// No punctuation in the corpus.
    Disabled,
}

/// Whether the decimal digit characters take part in the corpus.
#[derive(Clone, Copy, PartialEq, Eq, Structural, Debug)]
pub enum RadixNumbers {
    /// The characters `0` through `9`, ascending.
    All,
    /// No decimal digits in the corpus.
    Disabled,
}

/// Which letters take part in the corpus, and in what order.
#[derive(Clone, Copy, PartialEq, Eq, Structural, Debug)]
pub enum RadixLetters {
    /// Lowercase letters only: `a` through `z`.
    Insensitive,
    /// All uppercase letters, then all lowercase letters.
    Sensitive,
    /// Uppercase and lowercase interleaved per letter: `A a B b ... Z z`.
    SensitiveOrdered,
}

/// One selection from each of the three independent option enumerations.
/// Purely descriptive; the corpus is derived from it once.
#[derive(Clone, Copy, PartialEq, Eq, Structural, Debug)]
pub struct RadixSettings {
    pub symbols: RadixSymbols,
    pub numbers: RadixNumbers,
    pub letters: RadixLetters,
}

/// The 32 printable ASCII punctuation characters, in code-point order.
pub open spec fn symbols_all() -> Seq<char> {
    r##"!"#$%&'()*+,-./:;<=>?@[\]^_`{|}~"##@
}

/// The punctuation characters with `/` removed: 31 characters.
pub open spec fn symbols_unix_safe() -> Seq<char> {
    r##"!"#$%&'()*+,-.:;<=>?@[\]^_`{|}~"##@
}

/// The ten decimal digit characters in ascending order.
pub open spec fn numbers_all() -> Seq<char> {
    "0123456789"@
}

/// The 26 lowercase letters.
pub open spec fn letters_lowercase() -> Seq<char> {
    "abcdefghijklmnopqrstuvwxyz"@
}

/// The 26 uppercase letters followed by the 26 lowercase letters.
pub open spec fn letters_sensitive() -> Seq<char> {
    "ABCDEFGHIJKLMNOPQRSTUVWXYZabcdefghijklmnopqrstuvwxyz"@
}

/// The 52 letters interleaved per letter, uppercase first.
pub open spec fn letters_ordered() -> Seq<char> {
    "AaBbCcDdEeFfGgHhIiJjKkLlMmNnOoPpQqRrSsTtUuVvWwXxYyZz"@
}

/// The punctuation block that a symbol mode contributes to the corpus.
pub open spec fn symbols_block(m: RadixSymbols) -> Seq<char> {
    match m {
        RadixSymbols::All => symbols_all(),
        RadixSymbols::UnixSafe => symbols_unix_safe(),
        RadixSymbols::Disabled => Seq::empty(),
    }
}

/// The digit block that a number mode contributes to the corpus.
pub open spec fn numbers_block(m: RadixNumbers) -> Seq<char> {
    match m {
        RadixNumbers::All => numbers_all(),
        RadixNumbers::Disabled => Seq::empty(),
    }
}

/// The letter block that a letter mode contributes to the corpus.
pub open spec fn letters_block(m: RadixLetters) -> Seq<char> {
    match m {
        RadixLetters::Insensitive => letters_lowercase(),
        RadixLetters::Sensitive => letters_sensitive(),
        RadixLetters::SensitiveOrdered => letters_ordered(),
    }
}

/// The corpus an option set yields: symbols, then numbers, then letters,
/// concatenated in that fixed order.
pub open spec fn corpus_spec(s: RadixSettings) -> Seq<char> {
    symbols_block(s.symbols) + numbers_block(s.numbers) + letters_block(s.letters)
}

/// What the converter needs of a corpus: at least two pairwise-distinct
/// ASCII characters, so that the corpus length is a usable radix and every
/// digit value names exactly one character.
pub open spec fn valid_corpus(c: Seq<char>) -> bool {
    &&& 2 <= c.len()
    &&& is_ascii_chars(c)
    &&& forall|i: int, j: int| 0 <= i < j < c.len() ==> c[i] != c[j]
}

impl RadixSettings {
    pub fn new(symbols: RadixSymbols, numbers: RadixNumbers, letters: RadixLetters) -> (r: Self)
        ensures
            r.symbols == symbols,
            r.numbers == numbers,
            r.letters == letters,
    {
        Self { symbols, numbers, letters }
    }

    /// Builds the digit alphabet selected by this option set. Every option
    /// set yields a valid corpus, so the converter never sees a radix
    /// below two.
    pub fn corpus(&self) -> (r: String)
        ensures
            r@ == corpus_spec(*self),
            valid_corpus(r@),
    {
        proof {
            lemma_corpus_valid(*self);
        }
        let mut s = String::new();
        match self.symbols {
            RadixSymbols::All => s.append(r##"!"#$%&'()*+,-./:;<=>?@[\]^_`{|}~"##),
            RadixSymbols::UnixSafe => s.append(r##"!"#$%&'()*+,-.:;<=>?@[\]^_`{|}~"##),
            RadixSymbols::Disabled => {},
        }
        match self.numbers {
            RadixNumbers::All => s.append("0123456789"),
            RadixNumbers::Disabled => {},
        }
        match self.letters {
            RadixLetters::Insensitive => s.append("abcdefghijklmnopqrstuvwxyz"),
            RadixLetters::Sensitive => s.append("ABCDEFGHIJKLMNOPQRSTUVWXYZabcdefghijklmnopqrstuvwxyz"),
            RadixLetters::SensitiveOrdered => s.append("AaBbCcDdEeFfGgHhIiJjKkLlMmNnOoPpQqRrSsTtUuVvWwXxYyZz"),
        }
        proof {
            assert(s@ =~= corpus_spec(*self));
        }
        s
    }
}

/// Every option set yields a valid corpus: at least two characters, all
/// ASCII, pairwise distinct. The three blocks never share characters, and
/// no block repeats a character.
pub proof fn lemma_corpus_valid(s: RadixSettings)
    ensures
        valid_corpus(corpus_spec(s)),
{
    reveal_strlit(r##"!"#$%&'()*+,-./:;<=>?@[\]^_`{|}~"##);
    reveal_strlit(r##"!"#$%&'()*+,-.:;<=>?@[\]^_`{|}~"##);
    reveal_strlit("0123456789");
    reveal_strlit("abcdefghijklmnopqrstuvwxyz");
    reveal_strlit("ABCDEFGHIJKLMNOPQRSTUVWXYZabcdefghijklmnopqrstuvwxyz");
    reveal_strlit("AaBbCcDdEeFfGgHhIiJjKkLlMmNnOoPpQqRrSsTtUuVvWwXxYyZz");
}

} // verus!
