//! What a text must not hold for `serde_hjson` to be called on it.
//!
//! That crate stops the program in three places where it should report an
//! error: where it reads a whole number too great for 64 bits, where it
//! skips a comment that is opened with `/*` and never closed, and, in a
//! build that checks its arithmetic, where it reads a string in three quotes
//! that begins a line. The library goes over the text as that crate's
//! reader does, token by token, and finds out whether the reader would come
//! to one of these places; if so it reports the error itself.
//!
//! The reader makes up to two passes. The first takes the text for the
//! members of an object without braces; the second, which it makes only
//! where the first has given up with an error, takes the text for one
//! value. The walk follows the first pass to the place where it stops the
//! program, gives up or comes to the end, and the second only where the
//! first has given up. So a fault is found in a text exactly where the
//! reader, on that text, would come to one of the three places.

use crate::error::Fault;
use crate::source::hjson::IntoHjsonError;
use vstd::prelude::*;

verus! {

/// How far the text of a token has got as a number.
#[derive(Debug, Clone, Copy, PartialEq, Eq, Structural)]
pub enum Num {
    /// The text is no number.
    Not,
    /// A minus sign, and a digit must follow.
    Minus,
    /// The single digit zero as the whole part.
    Zero,
    /// The digits of the whole part.
    Int,
    /// A point, and a digit must follow.
    Dot,
    /// The digits behind the point.
    Frac,
    /// The letter of the exponent, and a sign or a digit must follow.
    Exp,
    /// The sign of the exponent, and a digit must follow.
    ExpSign,
    /// The digits of the exponent.
    ExpDigits,
    /// White space behind the number.
    Trail,
    /// A slash behind the number, which is skipped if a character follows.
    TrailSlash,
    /// A comment behind the number, which takes the rest of the token.
    TrailRest,
}

/// The number that the text of a token is so far.
#[derive(Debug, Clone, Copy)]
pub struct Number {
    pub kind: Num,
    /// The text has a point or an exponent.
    pub float: bool,
    /// The text begins with a minus sign.
    pub negative: bool,
    /// The whole part is too great for 64 bits.
    pub over: bool,
    /// The whole part, where it is not too great.
    pub value: u64,
}

/// One of the three words that are values.
#[derive(Debug, Clone, Copy, PartialEq, Eq, Structural)]
pub enum Word {
    Not,
    True,
    False,
    Null,
}

/// How far the text of a token has got as one of the three words.
#[derive(Debug, Clone, Copy)]
pub struct Keyword {
    pub which: Word,
    /// How many letters of the word have been read.
    pub seen: u8,
    /// White space has followed the word.
    pub tail: bool,
}

/// What the reader is in the middle of.
#[derive(Debug, Clone, Copy, PartialEq, Eq, Structural)]
pub enum Mode {
    /// White space between tokens.
    Space,
    /// A comment that ends with its line.
    Line,
    /// A slash between tokens, of which the next character says what it is.
    Slash,
    /// A comment between `/*` and `*/`.
    Block,
    /// A comment between `/*` and `*/`, just behind a star.
    BlockStar,
    /// The name of a member, written without quotes.
    Key,
    /// A string in double quotes.
    Quoted,
    /// A string in double quotes, just behind a backslash.
    Escape,
    /// A string in double quotes, in the four digits behind `\u`.
    Hex,
    /// A string in double quotes, behind the first half of a pair of
    /// `\u` escapes: a backslash is due.
    PairSlash,
    /// A string in double quotes, behind that backslash: a `u` is due.
    PairU,
    /// A value written without quotes.
    Token,
    /// A value written without quotes, just behind a slash.
    TokenSlash,
    /// A string in three quotes.
    Multi,
}

/// What the reader does when the white space is over.
#[derive(Debug, Clone, Copy, PartialEq, Eq, Structural)]
pub enum After {
    /// It reads the name of the first member of an object without braces,
    /// and nothing has been read yet.
    Start,
    /// It reads a value.
    Value,
    /// It reads the name of a member, or the end of the object.
    KeyCheck,
    /// It reads a comma or what [`After::KeyCheck`] reads.
    KeyNext,
    /// It reads the colon behind a name.
    Colon,
    /// It reads an item, or the end of the array.
    Item,
    /// It reads a comma or what [`After::Item`] reads.
    ItemNext,
    /// It reads nothing more: the value of the text is complete.
    End,
}

/// What the four digits behind `\u` stand for, as far as they are read.
#[derive(Debug, Clone, Copy, PartialEq, Eq, Structural)]
pub enum Unit {
    /// A character by itself.
    Plain,
    /// The first digit is `d`: the second decides.
    Lead,
    /// The first half of a pair.
    High,
    /// The second half of a pair.
    Low,
}

/// What the reader is inside of.
#[derive(Debug, Clone, Copy, PartialEq, Eq, Structural)]
pub enum Frame {
    /// Nothing: the value is the whole text.
    Top,
    Array,
    Object,
    /// The object without braces that the first pass takes the text for.
    Root,
}

/// What a character does to the frames that the reader is inside of.
#[derive(Debug, Clone, Copy, PartialEq, Eq, Structural)]
pub enum Op {
    Keep,
    PushArray,
    PushObject,
    Pop,
}

/// Where the reader stands.
#[derive(Debug, Clone, Copy)]
pub struct Scan {
    pub mode: Mode,
    pub after: After,
    /// The token so far, as a number.
    pub number: Number,
    /// The token so far, as a word.
    pub keyword: Keyword,
    /// In a token: how many quotes it begins with, if it has nothing else
    /// so far, and nine otherwise. In a string in three quotes: how many
    /// quotes stand last.
    pub quotes: u8,
    /// The token began at the beginning of a line.
    pub line_start: bool,
    /// The character before is a line feed, or there is none.
    pub newline: bool,
    /// The name has no character so far.
    pub key_empty: bool,
    /// White space has been met inside the name.
    pub key_space: bool,
    /// A character of the name has followed white space.
    pub key_more: bool,
    /// The string in double quotes is the name of a member.
    pub is_key: bool,
    /// How many of the four digits behind `\u` have been read.
    pub hex: u8,
    /// What those digits stand for.
    pub unit: Unit,
    /// The digits are those of the second half of a pair.
    pub pair: bool,
    /// The reader has given up with an error of syntax.
    pub halted: bool,
    /// The reader has come to a place where it stops the program.
    pub fault: Option<Fault>,
}

/// Where the reader stands, and what it does to the frames.
#[derive(Debug, Clone, Copy)]
pub struct Stepped {
    pub scan: Scan,
    pub op: Op,
}

/// The character is one of the ten digits.
pub open spec fn digit(c: char) -> bool {
    48 <= c as int <= 57
}

/// Whether the character is one of the ten digits.
#[verifier::when_used_as_spec(digit)]
pub fn is_digit(c: char) -> (r: bool)
    ensures
        r == digit(c),
{
    let code = c as u32;
    code >= 48 && code <= 57
}

/// The number that a digit stands for.
pub open spec fn digit_value(c: char) -> u64 {
    if digit(c) {
        (c as int - 48) as u64
    } else {
        0
    }
}

/// The number that a digit stands for.
#[verifier::when_used_as_spec(digit_value)]
pub fn digit_of(c: char) -> (r: u64)
    ensures
        r == digit_value(c),
{
    let code = c as u32;
    if code >= 48 && code <= 57 {
        (code - 48) as u64
    } else {
        0
    }
}

/// The character is at most a space in the order of characters.
pub open spec fn low(c: char) -> bool {
    c as int <= 32
}

/// Whether the character is at most a space in the order of characters.
#[verifier::when_used_as_spec(low)]
pub fn is_low(c: char) -> (r: bool)
    ensures
        r == low(c),
{
    c as u32 <= 32
}

/// The character is white space for the trimming of a text.
pub open spec fn white(c: char) -> bool {
    let code = c as int;
    9 <= code <= 13 || code == 32 || code == 0x85 || code == 0xa0 || code == 0x1680 || 0x2000
        <= code <= 0x200a || code == 0x2028 || code == 0x2029 || code == 0x202f || code == 0x205f
        || code == 0x3000
}

/// Whether the character is white space for the trimming of a text.
#[verifier::when_used_as_spec(white)]
pub fn is_white(c: char) -> (r: bool)
    ensures
        r == white(c),
{
    let code = c as u32;
    (9 <= code && code <= 13) || code == 32 || code == 0x85 || code == 0xa0 || code == 0x1680 || (
    0x2000 <= code && code <= 0x200a) || code == 0x2028 || code == 0x2029 || code == 0x202f
        || code == 0x205f || code == 0x3000
}

/// The number with one more digit in its whole part.
pub open spec fn grown(n: Number, d: u64) -> Number {
    if n.over || d > 9 || n.value > (0xffff_ffff_ffff_ffff - d) / 10 {
        Number { kind: n.kind, float: n.float, negative: n.negative, over: true, value: n.value }
    } else {
        Number {
            kind: n.kind,
            float: n.float,
            negative: n.negative,
            over: false,
            value: (n.value * 10 + d) as u64,
        }
    }
}

/// The number with one more digit in its whole part.
#[verifier::when_used_as_spec(grown)]
pub fn grow(n: Number, d: u64) -> (r: Number)
    ensures
        r == grown(n, d),
{
    if n.over || d > 9 || n.value > (0xffff_ffff_ffff_ffff - d) / 10 {
        Number { kind: n.kind, float: n.float, negative: n.negative, over: true, value: n.value }
    } else {
        Number {
            kind: n.kind,
            float: n.float,
            negative: n.negative,
            over: false,
            value: n.value * 10 + d,
        }
    }
}

/// The next number, as long as there is one in eight bits.
pub open spec fn increased(x: u8) -> u8 {
    if x < 255 {
        (x + 1) as u8
    } else {
        x
    }
}

/// The next number, as long as there is one in eight bits.
#[verifier::when_used_as_spec(increased)]
pub fn one_more(x: u8) -> (r: u8)
    ensures
        r == increased(x),
{
    if x < 255 {
        x + 1
    } else {
        x
    }
}

/// The character is white space between tokens.
#[verifier::opaque]
pub open spec fn blank(c: char) -> bool {
    c == ' ' || c == '\n' || c == '\t' || c == '\r'
}

/// The character is white space between tokens.
#[verifier::when_used_as_spec(blank)]
pub fn is_blank(c: char) -> (r: bool)
    ensures
        r == blank(c),
{
    proof {
        reveal(blank);
    }
    c == ' ' || c == '\n' || c == '\t' || c == '\r'
}

/// The character ends a line for a value without quotes.
#[verifier::opaque]
pub open spec fn line_end(c: char) -> bool {
    c == '\r' || c == '\n' || c == '\0'
}

/// The character ends a line for a value without quotes.
#[verifier::when_used_as_spec(line_end)]
pub fn is_line_end(c: char) -> (r: bool)
    ensures
        r == line_end(c),
{
    proof {
        reveal(line_end);
    }
    c == '\r' || c == '\n' || c == '\0'
}

/// The number at another stage.
#[verifier::opaque]
pub open spec fn staged(n: Number, kind: Num) -> Number {
    Number { kind: kind, float: n.float, negative: n.negative, over: n.over, value: n.value }
}

/// The number at another stage.
#[verifier::when_used_as_spec(staged)]
pub fn stage(n: Number, kind: Num) -> (r: Number)
    ensures
        r == staged(n, kind),
{
    proof {
        reveal(staged);
    }
    Number { kind: kind, float: n.float, negative: n.negative, over: n.over, value: n.value }
}

/// The number at another stage, with a point or an exponent.
#[verifier::opaque]
pub open spec fn floated(n: Number, kind: Num) -> Number {
    Number { kind: kind, float: true, negative: n.negative, over: n.over, value: n.value }
}

/// The number at another stage, with a point or an exponent.
#[verifier::when_used_as_spec(floated)]
pub fn float_at(n: Number, kind: Num) -> (r: Number)
    ensures
        r == floated(n, kind),
{
    proof {
        reveal(floated);
    }
    Number { kind: kind, float: true, negative: n.negative, over: n.over, value: n.value }
}

/// What the first character of a token makes of the token as a number.
#[verifier::opaque]
pub open spec fn number_begun(c: char) -> Number {
    if c == '-' {
        Number { kind: Num::Minus, float: false, negative: true, over: false, value: 0 }
    } else if c == '0' {
        Number { kind: Num::Zero, float: false, negative: false, over: false, value: 0 }
    } else if is_digit(c) {
        Number { kind: Num::Int, float: false, negative: false, over: false, value: digit_of(c) }
    } else {
        Number { kind: Num::Not, float: false, negative: false, over: false, value: 0 }
    }
}

/// What the first character of a token makes of the token as a number.
#[verifier::when_used_as_spec(number_begun)]
pub fn begin_number(c: char) -> (r: Number)
    ensures
        r == number_begun(c),
{
    proof {
        reveal(number_begun);
    }
    if c == '-' {
        Number { kind: Num::Minus, float: false, negative: true, over: false, value: 0 }
    } else if c == '0' {
        Number { kind: Num::Zero, float: false, negative: false, over: false, value: 0 }
    } else if is_digit(c) {
        Number { kind: Num::Int, float: false, negative: false, over: false, value: digit_of(c) }
    } else {
        Number { kind: Num::Not, float: false, negative: false, over: false, value: 0 }
    }
}

/// What a character behind a complete number makes of it: white space, a
/// slash with a character behind it and a comment may follow, nothing else.
#[verifier::opaque]
pub open spec fn trailed(n: Number, c: char) -> Number {
    if is_blank(c) {
        stage(n, Num::Trail)
    } else if c == '/' {
        stage(n, Num::TrailSlash)
    } else if c == '#' {
        stage(n, Num::TrailRest)
    } else {
        stage(n, Num::Not)
    }
}

/// What a character behind a complete number makes of it: white space, a
/// slash with a character behind it and a comment may follow, nothing else.
#[verifier::when_used_as_spec(trailed)]
pub fn trail(n: Number, c: char) -> (r: Number)
    ensures
        r == trailed(n, c),
{
    proof {
        reveal(trailed);
    }
    if is_blank(c) {
        stage(n, Num::Trail)
    } else if c == '/' {
        stage(n, Num::TrailSlash)
    } else if c == '#' {
        stage(n, Num::TrailRest)
    } else {
        stage(n, Num::Not)
    }
}

/// What a character behind the whole part makes of a number.
#[verifier::opaque]
pub open spec fn parted(n: Number, c: char) -> Number {
    if c == '.' {
        float_at(n, Num::Dot)
    } else if c == 'e' || c == 'E' {
        float_at(n, Num::Exp)
    } else {
        trail(n, c)
    }
}

/// What a character behind the whole part makes of a number.
#[verifier::when_used_as_spec(parted)]
pub fn part(n: Number, c: char) -> (r: Number)
    ensures
        r == parted(n, c),
{
    proof {
        reveal(parted);
    }
    if c == '.' {
        float_at(n, Num::Dot)
    } else if c == 'e' || c == 'E' {
        float_at(n, Num::Exp)
    } else {
        trail(n, c)
    }
}

/// What one more character makes of a token as a number.
#[verifier::opaque]
pub open spec fn number_after(n: Number, c: char) -> Number {
    match n.kind {
        Num::Not => n,
        Num::Minus => {
            if c == '0' {
                stage(n, Num::Zero)
            } else if is_digit(c) {
                grow(stage(n, Num::Int), digit_of(c))
            } else {
                stage(n, Num::Not)
            }
        },
        Num::Zero => {
            if is_digit(c) {
                stage(n, Num::Not)
            } else {
                part(n, c)
            }
        },
        Num::Int => {
            if is_digit(c) {
                grow(n, digit_of(c))
            } else {
                part(n, c)
            }
        },
        Num::Dot => {
            if is_digit(c) {
                stage(n, Num::Frac)
            } else {
                stage(n, Num::Not)
            }
        },
        Num::Frac => {
            if is_digit(c) {
                n
            } else if c == 'e' || c == 'E' {
                stage(n, Num::Exp)
            } else {
                trail(n, c)
            }
        },
        Num::Exp => {
            if c == '+' || c == '-' {
                stage(n, Num::ExpSign)
            } else if is_digit(c) {
                stage(n, Num::ExpDigits)
            } else {
                stage(n, Num::Not)
            }
        },
        Num::ExpSign => {
            if is_digit(c) {
                stage(n, Num::ExpDigits)
            } else {
                stage(n, Num::Not)
            }
        },
        Num::ExpDigits => {
            if is_digit(c) {
                n
            } else {
                trail(n, c)
            }
        },
        Num::Trail => trail(n, c),
        Num::TrailSlash => trail(n, c),
        Num::TrailRest => n,
    }
}

/// What one more character makes of a token as a number.
#[verifier::when_used_as_spec(number_after)]
pub fn next_number(n: Number, c: char) -> (r: Number)
    ensures
        r == number_after(n, c),
{
    proof {
        reveal(number_after);
    }
    match n.kind {
        Num::Not => n,
        Num::Minus => {
            if c == '0' {
                stage(n, Num::Zero)
            } else if is_digit(c) {
                grow(stage(n, Num::Int), digit_of(c))
            } else {
                stage(n, Num::Not)
            }
        },
        Num::Zero => {
            if is_digit(c) {
                stage(n, Num::Not)
            } else {
                part(n, c)
            }
        },
        Num::Int => {
            if is_digit(c) {
                grow(n, digit_of(c))
            } else {
                part(n, c)
            }
        },
        Num::Dot => {
            if is_digit(c) {
                stage(n, Num::Frac)
            } else {
                stage(n, Num::Not)
            }
        },
        Num::Frac => {
            if is_digit(c) {
                n
            } else if c == 'e' || c == 'E' {
                stage(n, Num::Exp)
            } else {
                trail(n, c)
            }
        },
        Num::Exp => {
            if c == '+' || c == '-' {
                stage(n, Num::ExpSign)
            } else if is_digit(c) {
                stage(n, Num::ExpDigits)
            } else {
                stage(n, Num::Not)
            }
        },
        Num::ExpSign => {
            if is_digit(c) {
                stage(n, Num::ExpDigits)
            } else {
                stage(n, Num::Not)
            }
        },
        Num::ExpDigits => {
            if is_digit(c) {
                n
            } else {
                trail(n, c)
            }
        },
        Num::Trail => trail(n, c),
        Num::TrailSlash => trail(n, c),
        Num::TrailRest => n,
    }
}

/// The text so far is a number.
#[verifier::opaque]
pub open spec fn accepted(n: Number) -> bool {
    match n.kind {
        Num::Zero => true,
        Num::Int => true,
        Num::Frac => true,
        Num::ExpDigits => true,
        Num::Trail => true,
        Num::TrailRest => true,
        _ => false,
    }
}

/// The text so far is a number.
#[verifier::when_used_as_spec(accepted)]
pub fn accepts(n: Number) -> (r: bool)
    ensures
        r == accepted(n),
{
    proof {
        reveal(accepted);
    }
    match n.kind {
        Num::Zero => true,
        Num::Int => true,
        Num::Frac => true,
        Num::ExpDigits => true,
        Num::Trail => true,
        Num::TrailRest => true,
        _ => false,
    }
}

/// The text so far is a whole number too great for 64 bits, or for 64 bits with
/// a sign where it has a minus sign: the reader stops the program on it.
#[verifier::opaque]
pub open spec fn stopping(n: Number) -> bool {
    accepts(n) && !n.float && (n.over || (n.negative && n.value > 0x8000_0000_0000_0000))
}

/// The text so far is a whole number too great for 64 bits, or for 64 bits with
/// a sign where it has a minus sign: the reader stops the program on it.
#[verifier::when_used_as_spec(stopping)]
pub fn stops(n: Number) -> (r: bool)
    ensures
        r == stopping(n),
{
    proof {
        reveal(stopping);
    }
    accepts(n) && !n.float && (n.over || (n.negative && n.value > 0x8000_0000_0000_0000))
}

/// How many letters the word has.
#[verifier::opaque]
pub open spec fn word_length(which: Word) -> u8 {
    match which {
        Word::Not => 0,
        Word::True => 4,
        Word::False => 5,
        Word::Null => 4,
    }
}

/// How many letters the word has.
#[verifier::when_used_as_spec(word_length)]
pub fn length_of(which: Word) -> (r: u8)
    ensures
        r == word_length(which),
{
    proof {
        reveal(word_length);
    }
    match which {
        Word::Not => 0,
        Word::True => 4,
        Word::False => 5,
        Word::Null => 4,
    }
}

/// The letter of the word at a place.
#[verifier::opaque]
pub open spec fn letter_at(which: Word, i: u8) -> char {
    match which {
        Word::Not => ' ',
        Word::True => {
            if i == 0 {
                't'
            } else if i == 1 {
                'r'
            } else if i == 2 {
                'u'
            } else {
                'e'
            }
        },
        Word::False => {
            if i == 0 {
                'f'
            } else if i == 1 {
                'a'
            } else if i == 2 {
                'l'
            } else if i == 3 {
                's'
            } else {
                'e'
            }
        },
        Word::Null => {
            if i == 0 {
                'n'
            } else if i == 1 {
                'u'
            } else {
                'l'
            }
        },
    }
}

/// The letter of the word at a place.
#[verifier::when_used_as_spec(letter_at)]
pub fn letter(which: Word, i: u8) -> (r: char)
    ensures
        r == letter_at(which, i),
{
    proof {
        reveal(letter_at);
    }
    match which {
        Word::Not => ' ',
        Word::True => {
            if i == 0 {
                't'
            } else if i == 1 {
                'r'
            } else if i == 2 {
                'u'
            } else {
                'e'
            }
        },
        Word::False => {
            if i == 0 {
                'f'
            } else if i == 1 {
                'a'
            } else if i == 2 {
                'l'
            } else if i == 3 {
                's'
            } else {
                'e'
            }
        },
        Word::Null => {
            if i == 0 {
                'n'
            } else if i == 1 {
                'u'
            } else {
                'l'
            }
        },
    }
}

/// What the first character of a token makes of the token as a word.
#[verifier::opaque]
pub open spec fn word_begun(c: char) -> Keyword {
    if c == 't' {
        Keyword { which: Word::True, seen: 1, tail: false }
    } else if c == 'f' {
        Keyword { which: Word::False, seen: 1, tail: false }
    } else if c == 'n' {
        Keyword { which: Word::Null, seen: 1, tail: false }
    } else {
        Keyword { which: Word::Not, seen: 0, tail: false }
    }
}

/// What the first character of a token makes of the token as a word.
#[verifier::when_used_as_spec(word_begun)]
pub fn begin_word(c: char) -> (r: Keyword)
    ensures
        r == word_begun(c),
{
    proof {
        reveal(word_begun);
    }
    if c == 't' {
        Keyword { which: Word::True, seen: 1, tail: false }
    } else if c == 'f' {
        Keyword { which: Word::False, seen: 1, tail: false }
    } else if c == 'n' {
        Keyword { which: Word::Null, seen: 1, tail: false }
    } else {
        Keyword { which: Word::Not, seen: 0, tail: false }
    }
}

/// What one more character makes of a token as a word: the letters of the
/// word, and then white space.
#[verifier::opaque]
pub open spec fn word_after(k: Keyword, c: char) -> Keyword {
    if k.seen < length_of(k.which) {
        if !k.tail && c == letter(k.which, k.seen) {
            Keyword { which: k.which, seen: one_more(k.seen), tail: false }
        } else {
            Keyword { which: Word::Not, seen: 0, tail: false }
        }
    } else if is_white(c) {
        Keyword { which: k.which, seen: k.seen, tail: true }
    } else {
        Keyword { which: Word::Not, seen: 0, tail: false }
    }
}

/// What one more character makes of a token as a word: the letters of the
/// word, and then white space.
#[verifier::when_used_as_spec(word_after)]
pub fn next_word(k: Keyword, c: char) -> (r: Keyword)
    ensures
        r == word_after(k, c),
{
    proof {
        reveal(word_after);
    }
    if k.seen < length_of(k.which) {
        if !k.tail && c == letter(k.which, k.seen) {
            Keyword { which: k.which, seen: one_more(k.seen), tail: false }
        } else {
            Keyword { which: Word::Not, seen: 0, tail: false }
        }
    } else if is_white(c) {
        Keyword { which: k.which, seen: k.seen, tail: true }
    } else {
        Keyword { which: Word::Not, seen: 0, tail: false }
    }
}

/// The text so far is one of the three words.
#[verifier::opaque]
pub open spec fn word_accepted(k: Keyword) -> bool {
    match k.which {
        Word::Not => false,
        _ => k.seen == length_of(k.which),
    }
}

/// The text so far is one of the three words.
#[verifier::when_used_as_spec(word_accepted)]
pub fn word_accepts(k: Keyword) -> (r: bool)
    ensures
        r == word_accepted(k),
{
    proof {
        reveal(word_accepted);
    }
    match k.which {
        Word::Not => false,
        _ => k.seen == length_of(k.which),
    }
}

/// The reader in another mode.
#[verifier::opaque]
pub open spec fn moded(s: Scan, mode: Mode) -> Scan {
    Scan { mode: mode, after: s.after, number: s.number, keyword: s.keyword, quotes: s.quotes, line_start: s.line_start, newline: s.newline, key_empty: s.key_empty, key_space: s.key_space, key_more: s.key_more, is_key: s.is_key, hex: s.hex, unit: s.unit, pair: s.pair, halted: s.halted, fault: s.fault }
}

/// The reader in another mode.
#[verifier::when_used_as_spec(moded)]
pub fn in_mode(s: Scan, mode: Mode) -> (r: Scan)
    ensures
        r == moded(s, mode),
{
    proof {
        reveal(moded);
    }
    Scan { mode: mode, after: s.after, number: s.number, keyword: s.keyword, quotes: s.quotes, line_start: s.line_start, newline: s.newline, key_empty: s.key_empty, key_space: s.key_space, key_more: s.key_more, is_key: s.is_key, hex: s.hex, unit: s.unit, pair: s.pair, halted: s.halted, fault: s.fault }
}

/// The reader in white space, with something else to do when it is over.
#[verifier::opaque]
pub open spec fn awaiting(s: Scan, after: After) -> Scan {
    Scan { mode: Mode::Space, after: after, number: s.number, keyword: s.keyword, quotes: s.quotes, line_start: s.line_start, newline: s.newline, key_empty: s.key_empty, key_space: s.key_space, key_more: s.key_more, is_key: s.is_key, hex: s.hex, unit: s.unit, pair: s.pair, halted: s.halted, fault: s.fault }
}

/// The reader in white space, with something else to do when it is over.
#[verifier::when_used_as_spec(awaiting)]
pub fn await_next(s: Scan, after: After) -> (r: Scan)
    ensures
        r == awaiting(s, after),
{
    proof {
        reveal(awaiting);
    }
    Scan { mode: Mode::Space, after: after, number: s.number, keyword: s.keyword, quotes: s.quotes, line_start: s.line_start, newline: s.newline, key_empty: s.key_empty, key_space: s.key_space, key_more: s.key_more, is_key: s.is_key, hex: s.hex, unit: s.unit, pair: s.pair, halted: s.halted, fault: s.fault }
}

/// The reader given up.
#[verifier::opaque]
pub open spec fn halted(s: Scan) -> Scan {
    Scan { mode: s.mode, after: s.after, number: s.number, keyword: s.keyword, quotes: s.quotes, line_start: s.line_start, newline: s.newline, key_empty: s.key_empty, key_space: s.key_space, key_more: s.key_more, is_key: s.is_key, hex: s.hex, unit: s.unit, pair: s.pair, halted: true, fault: s.fault }
}

/// The reader given up.
#[verifier::when_used_as_spec(halted)]
pub fn halt(s: Scan) -> (r: Scan)
    ensures
        r == halted(s),
{
    proof {
        reveal(halted);
    }
    Scan { mode: s.mode, after: s.after, number: s.number, keyword: s.keyword, quotes: s.quotes, line_start: s.line_start, newline: s.newline, key_empty: s.key_empty, key_space: s.key_space, key_more: s.key_more, is_key: s.is_key, hex: s.hex, unit: s.unit, pair: s.pair, halted: true, fault: s.fault }
}

/// The reader at a place where it stops the program.
#[verifier::opaque]
pub open spec fn failed(s: Scan, fault: Fault) -> Scan {
    Scan { mode: s.mode, after: s.after, number: s.number, keyword: s.keyword, quotes: s.quotes, line_start: s.line_start, newline: s.newline, key_empty: s.key_empty, key_space: s.key_space, key_more: s.key_more, is_key: s.is_key, hex: s.hex, unit: s.unit, pair: s.pair, halted: s.halted, fault: Some(fault) }
}

/// The reader at a place where it stops the program.
#[verifier::when_used_as_spec(failed)]
pub fn fail(s: Scan, fault: Fault) -> (r: Scan)
    ensures
        r == failed(s, fault),
{
    proof {
        reveal(failed);
    }
    Scan { mode: s.mode, after: s.after, number: s.number, keyword: s.keyword, quotes: s.quotes, line_start: s.line_start, newline: s.newline, key_empty: s.key_empty, key_space: s.key_space, key_more: s.key_more, is_key: s.is_key, hex: s.hex, unit: s.unit, pair: s.pair, halted: s.halted, fault: Some(fault) }
}

/// The reader with so many quotes counted.
#[verifier::opaque]
pub open spec fn quoting(s: Scan, quotes: u8) -> Scan {
    Scan { mode: s.mode, after: s.after, number: s.number, keyword: s.keyword, quotes: quotes, line_start: s.line_start, newline: s.newline, key_empty: s.key_empty, key_space: s.key_space, key_more: s.key_more, is_key: s.is_key, hex: s.hex, unit: s.unit, pair: s.pair, halted: s.halted, fault: s.fault }
}

/// The reader with so many quotes counted.
#[verifier::when_used_as_spec(quoting)]
pub fn count_quotes(s: Scan, quotes: u8) -> (r: Scan)
    ensures
        r == quoting(s, quotes),
{
    proof {
        reveal(quoting);
    }
    Scan { mode: s.mode, after: s.after, number: s.number, keyword: s.keyword, quotes: quotes, line_start: s.line_start, newline: s.newline, key_empty: s.key_empty, key_space: s.key_space, key_more: s.key_more, is_key: s.is_key, hex: s.hex, unit: s.unit, pair: s.pair, halted: s.halted, fault: s.fault }
}

/// What does not change the frames.
#[verifier::opaque]
pub open spec fn kept(s: Scan) -> Stepped {
    Stepped { scan: s, op: Op::Keep }
}

/// What does not change the frames.
#[verifier::when_used_as_spec(kept)]
pub fn keep(s: Scan) -> (r: Stepped)
    ensures
        r == kept(s),
{
    proof {
        reveal(kept);
    }
    Stepped { scan: s, op: Op::Keep }
}

/// The reader behind a complete value: what it looks for next depends on what
/// the value stands in.
#[verifier::opaque]
pub open spec fn finished(s: Scan, top: Frame) -> Scan {
    match top {
        Frame::Top => await_next(s, After::End),
        Frame::Array => await_next(s, After::ItemNext),
        Frame::Object => await_next(s, After::KeyNext),
        Frame::Root => await_next(s, After::KeyNext),
    }
}

/// The reader behind a complete value: what it looks for next depends on what
/// the value stands in.
#[verifier::when_used_as_spec(finished)]
pub fn finish_value(s: Scan, top: Frame) -> (r: Scan)
    ensures
        r == finished(s, top),
{
    proof {
        reveal(finished);
    }
    match top {
        Frame::Top => await_next(s, After::End),
        Frame::Array => await_next(s, After::ItemNext),
        Frame::Object => await_next(s, After::KeyNext),
        Frame::Root => await_next(s, After::KeyNext),
    }
}

/// The reader with one more character in a value without quotes. Three quotes
/// at its beginning open a string in three quotes, and at the beginning of a
/// line the reader stops the program there.
#[verifier::opaque]
pub open spec fn token_with(s: Scan, c: char) -> Scan {
    if s.quotes == 2 && c == '\'' {
        if s.line_start {
            fail(s, Fault::QuotesLeadLine)
        } else {
            count_quotes(in_mode(s, Mode::Multi), 0)
        }
    } else {
        Scan { mode: Mode::Token, after: s.after, number: next_number(s.number, c), keyword: next_word(s.keyword, c), quotes: if s.quotes < 2 && c == '\'' { one_more(s.quotes) } else { 9 }, line_start: s.line_start, newline: s.newline, key_empty: s.key_empty, key_space: s.key_space, key_more: s.key_more, is_key: s.is_key, hex: s.hex, unit: s.unit, pair: s.pair, halted: s.halted, fault: s.fault }
    }
}

/// The reader with one more character in a value without quotes. Three quotes
/// at its beginning open a string in three quotes, and at the beginning of a
/// line the reader stops the program there.
#[verifier::when_used_as_spec(token_with)]
pub fn push_token(s: Scan, c: char) -> (r: Scan)
    ensures
        r == token_with(s, c),
{
    proof {
        reveal(token_with);
    }
    if s.quotes == 2 && c == '\'' {
        if s.line_start {
            fail(s, Fault::QuotesLeadLine)
        } else {
            count_quotes(in_mode(s, Mode::Multi), 0)
        }
    } else {
        Scan { mode: Mode::Token, after: s.after, number: next_number(s.number, c), keyword: next_word(s.keyword, c), quotes: if s.quotes < 2 && c == '\'' { one_more(s.quotes) } else { 9 }, line_start: s.line_start, newline: s.newline, key_empty: s.key_empty, key_space: s.key_space, key_more: s.key_more, is_key: s.is_key, hex: s.hex, unit: s.unit, pair: s.pair, halted: s.halted, fault: s.fault }
    }
}

/// The reader at the first character of a value without quotes.
#[verifier::opaque]
pub open spec fn token_begun(s: Scan, c: char) -> Scan {
    Scan { mode: Mode::Token, after: s.after, number: begin_number(c), keyword: begin_word(c), quotes: if c == '\'' { 1 } else { 9 }, line_start: s.newline, newline: s.newline, key_empty: s.key_empty, key_space: s.key_space, key_more: s.key_more, is_key: s.is_key, hex: s.hex, unit: s.unit, pair: s.pair, halted: s.halted, fault: s.fault }
}

/// The reader at the first character of a value without quotes.
#[verifier::when_used_as_spec(token_begun)]
pub fn begin_token(s: Scan, c: char) -> (r: Scan)
    ensures
        r == token_begun(s, c),
{
    proof {
        reveal(token_begun);
    }
    Scan { mode: Mode::Token, after: s.after, number: begin_number(c), keyword: begin_word(c), quotes: if c == '\'' { 1 } else { 9 }, line_start: s.newline, newline: s.newline, key_empty: s.key_empty, key_space: s.key_space, key_more: s.key_more, is_key: s.is_key, hex: s.hex, unit: s.unit, pair: s.pair, halted: s.halted, fault: s.fault }
}

/// The reader at one more character of a name without quotes.
#[verifier::opaque]
pub open spec fn key_after(s: Scan, c: char) -> Scan {
    if c == ':' {
        if s.key_empty || (s.key_space && s.key_more) {
            halt(s)
        } else {
            await_next(s, After::Value)
        }
    } else if is_low(c) {
        if c == '\0' {
            halt(s)
        } else {
            Scan { mode: s.mode, after: s.after, number: s.number, keyword: s.keyword, quotes: s.quotes, line_start: s.line_start, newline: s.newline, key_empty: s.key_empty, key_space: true, key_more: s.key_more, is_key: s.is_key, hex: s.hex, unit: s.unit, pair: s.pair, halted: s.halted, fault: s.fault }
        }
    } else if c == '{' || c == '}' || c == '[' || c == ']' || c == ',' {
        halt(s)
    } else {
        Scan { mode: s.mode, after: s.after, number: s.number, keyword: s.keyword, quotes: s.quotes, line_start: s.line_start, newline: s.newline, key_empty: false, key_space: s.key_space, key_more: s.key_space, is_key: s.is_key, hex: s.hex, unit: s.unit, pair: s.pair, halted: s.halted, fault: s.fault }
    }
}

/// The reader at one more character of a name without quotes.
#[verifier::when_used_as_spec(key_after)]
pub fn step_key(s: Scan, c: char) -> (r: Scan)
    ensures
        r == key_after(s, c),
{
    proof {
        reveal(key_after);
    }
    if c == ':' {
        if s.key_empty || (s.key_space && s.key_more) {
            halt(s)
        } else {
            await_next(s, After::Value)
        }
    } else if is_low(c) {
        if c == '\0' {
            halt(s)
        } else {
            Scan { mode: s.mode, after: s.after, number: s.number, keyword: s.keyword, quotes: s.quotes, line_start: s.line_start, newline: s.newline, key_empty: s.key_empty, key_space: true, key_more: s.key_more, is_key: s.is_key, hex: s.hex, unit: s.unit, pair: s.pair, halted: s.halted, fault: s.fault }
        }
    } else if c == '{' || c == '}' || c == '[' || c == ']' || c == ',' {
        halt(s)
    } else {
        Scan { mode: s.mode, after: s.after, number: s.number, keyword: s.keyword, quotes: s.quotes, line_start: s.line_start, newline: s.newline, key_empty: false, key_space: s.key_space, key_more: s.key_space, is_key: s.is_key, hex: s.hex, unit: s.unit, pair: s.pair, halted: s.halted, fault: s.fault }
    }
}

/// The reader at the first character of a value.
#[verifier::opaque]
pub open spec fn value_begun(s: Scan, c: char) -> Stepped {
    if c == '"' {
        keep(Scan { mode: Mode::Quoted, after: s.after, number: s.number, keyword: s.keyword, quotes: s.quotes, line_start: s.line_start, newline: s.newline, key_empty: s.key_empty, key_space: s.key_space, key_more: s.key_more, is_key: false, hex: s.hex, unit: s.unit, pair: s.pair, halted: s.halted, fault: s.fault })
    } else if c == '[' {
        Stepped { scan: await_next(s, After::Item), op: Op::PushArray }
    } else if c == '{' {
        Stepped { scan: await_next(s, After::KeyCheck), op: Op::PushObject }
    } else if c == '\0' || c == ']' || c == '}' || c == ',' || c == ':' {
        keep(halt(s))
    } else {
        keep(begin_token(s, c))
    }
}

/// The reader at the first character of a value.
#[verifier::when_used_as_spec(value_begun)]
pub fn begin_value(s: Scan, c: char) -> (r: Stepped)
    ensures
        r == value_begun(s, c),
{
    proof {
        reveal(value_begun);
    }
    if c == '"' {
        keep(Scan { mode: Mode::Quoted, after: s.after, number: s.number, keyword: s.keyword, quotes: s.quotes, line_start: s.line_start, newline: s.newline, key_empty: s.key_empty, key_space: s.key_space, key_more: s.key_more, is_key: false, hex: s.hex, unit: s.unit, pair: s.pair, halted: s.halted, fault: s.fault })
    } else if c == '[' {
        Stepped { scan: await_next(s, After::Item), op: Op::PushArray }
    } else if c == '{' {
        Stepped { scan: await_next(s, After::KeyCheck), op: Op::PushObject }
    } else if c == '\0' || c == ']' || c == '}' || c == ',' || c == ':' {
        keep(halt(s))
    } else {
        keep(begin_token(s, c))
    }
}

/// The reader where an item or the end of the array is due.
#[verifier::opaque]
pub open spec fn item_begun(s: Scan, c: char, under: Frame) -> Stepped {
    if c == ']' {
        Stepped { scan: finish_value(s, under), op: Op::Pop }
    } else {
        begin_value(s, c)
    }
}

/// The reader where an item or the end of the array is due.
#[verifier::when_used_as_spec(item_begun)]
pub fn begin_item(s: Scan, c: char, under: Frame) -> (r: Stepped)
    ensures
        r == item_begun(s, c, under),
{
    proof {
        reveal(item_begun);
    }
    if c == ']' {
        Stepped { scan: finish_value(s, under), op: Op::Pop }
    } else {
        begin_value(s, c)
    }
}

/// The reader where a name or the end of the object is due.
#[verifier::opaque]
pub open spec fn key_begun(s: Scan, c: char, top: Frame, under: Frame) -> Stepped {
    if c == '}' {
        match top {
            Frame::Object => Stepped { scan: finish_value(s, under), op: Op::Pop },
            _ => keep(halt(s)),
        }
    } else if c == '"' {
        keep(Scan { mode: Mode::Quoted, after: s.after, number: s.number, keyword: s.keyword, quotes: s.quotes, line_start: s.line_start, newline: s.newline, key_empty: s.key_empty, key_space: s.key_space, key_more: s.key_more, is_key: true, hex: s.hex, unit: s.unit, pair: s.pair, halted: s.halted, fault: s.fault })
    } else {
        keep(
            step_key(
                Scan { mode: Mode::Key, after: s.after, number: s.number, keyword: s.keyword, quotes: s.quotes, line_start: s.line_start, newline: s.newline, key_empty: true, key_space: false, key_more: false, is_key: s.is_key, hex: s.hex, unit: s.unit, pair: s.pair, halted: s.halted, fault: s.fault },
                c,
            ),
        )
    }
}

/// The reader where a name or the end of the object is due.
#[verifier::when_used_as_spec(key_begun)]
pub fn begin_key(s: Scan, c: char, top: Frame, under: Frame) -> (r: Stepped)
    ensures
        r == key_begun(s, c, top, under),
{
    proof {
        reveal(key_begun);
    }
    if c == '}' {
        match top {
            Frame::Object => Stepped { scan: finish_value(s, under), op: Op::Pop },
            _ => keep(halt(s)),
        }
    } else if c == '"' {
        keep(Scan { mode: Mode::Quoted, after: s.after, number: s.number, keyword: s.keyword, quotes: s.quotes, line_start: s.line_start, newline: s.newline, key_empty: s.key_empty, key_space: s.key_space, key_more: s.key_more, is_key: true, hex: s.hex, unit: s.unit, pair: s.pair, halted: s.halted, fault: s.fault })
    } else {
        keep(
            step_key(
                Scan { mode: Mode::Key, after: s.after, number: s.number, keyword: s.keyword, quotes: s.quotes, line_start: s.line_start, newline: s.newline, key_empty: true, key_space: false, key_more: false, is_key: s.is_key, hex: s.hex, unit: s.unit, pair: s.pair, halted: s.halted, fault: s.fault },
                c,
            ),
        )
    }
}

/// The reader at the first character behind white space.
#[verifier::opaque]
pub open spec fn resumed(s: Scan, c: char, top: Frame, under: Frame) -> Stepped {
    match s.after {
        After::Start => begin_key(s, c, top, under),
        After::Value => begin_value(s, c),
        After::KeyCheck => begin_key(s, c, top, under),
        After::KeyNext => {
            if c == ',' {
                keep(await_next(s, After::KeyCheck))
            } else {
                begin_key(s, c, top, under)
            }
        },
        After::Colon => {
            if c == ':' {
                keep(await_next(s, After::Value))
            } else {
                keep(halt(s))
            }
        },
        After::Item => begin_item(s, c, under),
        After::ItemNext => {
            if c == ',' {
                keep(await_next(s, After::Item))
            } else {
                begin_item(s, c, under)
            }
        },
        After::End => keep(halt(s)),
    }
}

/// The reader at the first character behind white space.
#[verifier::when_used_as_spec(resumed)]
pub fn resume(s: Scan, c: char, top: Frame, under: Frame) -> (r: Stepped)
    ensures
        r == resumed(s, c, top, under),
{
    proof {
        reveal(resumed);
    }
    match s.after {
        After::Start => begin_key(s, c, top, under),
        After::Value => begin_value(s, c),
        After::KeyCheck => begin_key(s, c, top, under),
        After::KeyNext => {
            if c == ',' {
                keep(await_next(s, After::KeyCheck))
            } else {
                begin_key(s, c, top, under)
            }
        },
        After::Colon => {
            if c == ':' {
                keep(await_next(s, After::Value))
            } else {
                keep(halt(s))
            }
        },
        After::Item => begin_item(s, c, under),
        After::ItemNext => {
            if c == ',' {
                keep(await_next(s, After::Item))
            } else {
                begin_item(s, c, under)
            }
        },
        After::End => keep(halt(s)),
    }
}

/// The reader at a character between tokens.
#[verifier::opaque]
pub open spec fn spaced(s: Scan, c: char, top: Frame, under: Frame) -> Stepped {
    if is_blank(c) {
        keep(s)
    } else if c == '#' {
        keep(in_mode(s, Mode::Line))
    } else if c == '/' {
        keep(in_mode(s, Mode::Slash))
    } else {
        resume(s, c, top, under)
    }
}

/// The reader at a character between tokens.
#[verifier::when_used_as_spec(spaced)]
pub fn step_space(s: Scan, c: char, top: Frame, under: Frame) -> (r: Stepped)
    ensures
        r == spaced(s, c, top, under),
{
    proof {
        reveal(spaced);
    }
    if is_blank(c) {
        keep(s)
    } else if c == '#' {
        keep(in_mode(s, Mode::Line))
    } else if c == '/' {
        keep(in_mode(s, Mode::Slash))
    } else {
        resume(s, c, top, under)
    }
}

/// The reader at a character of a value without quotes. Where the value can
/// end and is a number or a word so far, it ends before the character; a
/// whole number too great stops the program there. Where a line ends, the
/// value ends as a string.
#[verifier::opaque]
pub open spec fn token_after(s: Scan, c: char, top: Frame, under: Frame) -> Stepped {
    if c == '/' {
        keep(in_mode(s, Mode::TokenSlash))
    } else if is_line_end(c) || c == '#' || c == ',' || c == '}' || c == ']' {
        if accepts(s.number) {
            if stops(s.number) {
                keep(fail(s, Fault::NumberTooGreat))
            } else {
                step_space(finish_value(s, top), c, top, under)
            }
        } else if word_accepts(s.keyword) {
            step_space(finish_value(s, top), c, top, under)
        } else if is_line_end(c) {
            keep(finish_value(s, top))
        } else {
            keep(push_token(s, c))
        }
    } else {
        keep(push_token(s, c))
    }
}

/// The reader at a character of a value without quotes. Where the value can
/// end and is a number or a word so far, it ends before the character; a
/// whole number too great stops the program there. Where a line ends, the
/// value ends as a string.
#[verifier::when_used_as_spec(token_after)]
pub fn step_token(s: Scan, c: char, top: Frame, under: Frame) -> (r: Stepped)
    ensures
        r == token_after(s, c, top, under),
{
    proof {
        reveal(token_after);
    }
    if c == '/' {
        keep(in_mode(s, Mode::TokenSlash))
    } else if is_line_end(c) || c == '#' || c == ',' || c == '}' || c == ']' {
        if accepts(s.number) {
            if stops(s.number) {
                keep(fail(s, Fault::NumberTooGreat))
            } else {
                step_space(finish_value(s, top), c, top, under)
            }
        } else if word_accepts(s.keyword) {
            step_space(finish_value(s, top), c, top, under)
        } else if is_line_end(c) {
            keep(finish_value(s, top))
        } else {
            keep(push_token(s, c))
        }
    } else {
        keep(push_token(s, c))
    }
}

/// The reader at the character behind a slash in a value without quotes. The
/// slash opens a comment only with a slash or a star behind it, and only
/// where the value is a number or a word so far.
#[verifier::opaque]
pub open spec fn token_slashed(s: Scan, c: char, top: Frame, under: Frame) -> Stepped {
    if (c == '/' || c == '*') && accepts(s.number) {
        if stops(s.number) {
            keep(fail(s, Fault::NumberTooGreat))
        } else if c == '/' {
            keep(in_mode(finish_value(s, top), Mode::Line))
        } else {
            keep(in_mode(finish_value(s, top), Mode::Block))
        }
    } else if (c == '/' || c == '*') && word_accepts(s.keyword) {
        if c == '/' {
            keep(in_mode(finish_value(s, top), Mode::Line))
        } else {
            keep(in_mode(finish_value(s, top), Mode::Block))
        }
    } else {
        step_token(push_token(in_mode(s, Mode::Token), '/'), c, top, under)
    }
}

/// The reader at the character behind a slash in a value without quotes. The
/// slash opens a comment only with a slash or a star behind it, and only
/// where the value is a number or a word so far.
#[verifier::when_used_as_spec(token_slashed)]
pub fn step_token_slash(s: Scan, c: char, top: Frame, under: Frame) -> (r: Stepped)
    ensures
        r == token_slashed(s, c, top, under),
{
    proof {
        reveal(token_slashed);
    }
    if (c == '/' || c == '*') && accepts(s.number) {
        if stops(s.number) {
            keep(fail(s, Fault::NumberTooGreat))
        } else if c == '/' {
            keep(in_mode(finish_value(s, top), Mode::Line))
        } else {
            keep(in_mode(finish_value(s, top), Mode::Block))
        }
    } else if (c == '/' || c == '*') && word_accepts(s.keyword) {
        if c == '/' {
            keep(in_mode(finish_value(s, top), Mode::Line))
        } else {
            keep(in_mode(finish_value(s, top), Mode::Block))
        }
    } else {
        step_token(push_token(in_mode(s, Mode::Token), '/'), c, top, under)
    }
}

/// The character is a digit of the sixteen.
#[verifier::opaque]
pub open spec fn hex_digit(c: char) -> bool {
    is_digit(c) || (97 <= c as u32 && c as u32 <= 102) || (65 <= c as u32 && c as u32 <= 70)
}

/// The character is a digit of the sixteen.
#[verifier::when_used_as_spec(hex_digit)]
pub fn is_hex_digit(c: char) -> (r: bool)
    ensures
        r == hex_digit(c),
{
    proof {
        reveal(hex_digit);
    }
    is_digit(c) || (97 <= c as u32 && c as u32 <= 102) || (65 <= c as u32 && c as u32 <= 70)
}

/// The reader before the four digits behind `\u`.
#[verifier::opaque]
pub open spec fn hex_begun(s: Scan, pair: bool) -> Scan {
    Scan { mode: Mode::Hex, after: s.after, number: s.number, keyword: s.keyword, quotes: s.quotes, line_start: s.line_start, newline: s.newline, key_empty: s.key_empty, key_space: s.key_space, key_more: s.key_more, is_key: s.is_key, hex: 0, unit: Unit::Plain, pair: pair, halted: s.halted, fault: s.fault }
}

/// The reader before the four digits behind `\u`.
#[verifier::when_used_as_spec(hex_begun)]
pub fn begin_hex(s: Scan, pair: bool) -> (r: Scan)
    ensures
        r == hex_begun(s, pair),
{
    proof {
        reveal(hex_begun);
    }
    Scan { mode: Mode::Hex, after: s.after, number: s.number, keyword: s.keyword, quotes: s.quotes, line_start: s.line_start, newline: s.newline, key_empty: s.key_empty, key_space: s.key_space, key_more: s.key_more, is_key: s.is_key, hex: 0, unit: Unit::Plain, pair: pair, halted: s.halted, fault: s.fault }
}

/// What one more digit makes of what the digits stand for: from `d800` to
/// `dbff` they are the first half of a pair, from `dc00` to `dfff` the second.
#[verifier::opaque]
pub open spec fn unit_after(s: Scan, c: char) -> Unit {
    if s.hex == 0 {
        if c == 'd' || c == 'D' {
            Unit::Lead
        } else {
            Unit::Plain
        }
    } else if s.hex == 1 {
        match s.unit {
            Unit::Lead => {
                if c == '8' || c == '9' || c == 'a' || c == 'A' || c == 'b' || c == 'B' {
                    Unit::High
                } else if c == 'c' || c == 'C' || c == 'd' || c == 'D' || c == 'e' || c == 'E' || c == 'f'
                    || c == 'F' {
                    Unit::Low
                } else {
                    Unit::Plain
                }
            },
            _ => s.unit,
        }
    } else {
        s.unit
    }
}

/// What one more digit makes of what the digits stand for: from `d800` to
/// `dbff` they are the first half of a pair, from `dc00` to `dfff` the second.
#[verifier::when_used_as_spec(unit_after)]
pub fn next_unit(s: Scan, c: char) -> (r: Unit)
    ensures
        r == unit_after(s, c),
{
    proof {
        reveal(unit_after);
    }
    if s.hex == 0 {
        if c == 'd' || c == 'D' {
            Unit::Lead
        } else {
            Unit::Plain
        }
    } else if s.hex == 1 {
        match s.unit {
            Unit::Lead => {
                if c == '8' || c == '9' || c == 'a' || c == 'A' || c == 'b' || c == 'B' {
                    Unit::High
                } else if c == 'c' || c == 'C' || c == 'd' || c == 'D' || c == 'e' || c == 'E' || c == 'f'
                    || c == 'F' {
                    Unit::Low
                } else {
                    Unit::Plain
                }
            },
            _ => s.unit,
        }
    } else {
        s.unit
    }
}

/// The reader at one of the four digits behind `\u`. Behind the fourth, a
/// character by itself is done, the first half of a pair asks for the second,
/// and the second half is taken only behind the first.
#[verifier::opaque]
pub open spec fn hex_after(s: Scan, c: char) -> Scan {
    if !is_hex_digit(c) {
        halt(s)
    } else if s.hex < 3 {
        Scan { mode: s.mode, after: s.after, number: s.number, keyword: s.keyword, quotes: s.quotes, line_start: s.line_start, newline: s.newline, key_empty: s.key_empty, key_space: s.key_space, key_more: s.key_more, is_key: s.is_key, hex: one_more(s.hex), unit: next_unit(s, c), pair: s.pair, halted: s.halted, fault: s.fault }
    } else {
        match next_unit(s, c) {
            Unit::Low => {
                if s.pair {
                    in_mode(s, Mode::Quoted)
                } else {
                    halt(s)
                }
            },
            Unit::High => {
                if s.pair {
                    halt(s)
                } else {
                    in_mode(s, Mode::PairSlash)
                }
            },
            _ => {
                if s.pair {
                    halt(s)
                } else {
                    in_mode(s, Mode::Quoted)
                }
            },
        }
    }
}

/// The reader at one of the four digits behind `\u`. Behind the fourth, a
/// character by itself is done, the first half of a pair asks for the second,
/// and the second half is taken only behind the first.
#[verifier::when_used_as_spec(hex_after)]
pub fn step_hex(s: Scan, c: char) -> (r: Scan)
    ensures
        r == hex_after(s, c),
{
    proof {
        reveal(hex_after);
    }
    if !is_hex_digit(c) {
        halt(s)
    } else if s.hex < 3 {
        Scan { mode: s.mode, after: s.after, number: s.number, keyword: s.keyword, quotes: s.quotes, line_start: s.line_start, newline: s.newline, key_empty: s.key_empty, key_space: s.key_space, key_more: s.key_more, is_key: s.is_key, hex: one_more(s.hex), unit: next_unit(s, c), pair: s.pair, halted: s.halted, fault: s.fault }
    } else {
        match next_unit(s, c) {
            Unit::Low => {
                if s.pair {
                    in_mode(s, Mode::Quoted)
                } else {
                    halt(s)
                }
            },
            Unit::High => {
                if s.pair {
                    halt(s)
                } else {
                    in_mode(s, Mode::PairSlash)
                }
            },
            _ => {
                if s.pair {
                    halt(s)
                } else {
                    in_mode(s, Mode::Quoted)
                }
            },
        }
    }
}

/// The reader at a character of a comment, or behind a slash between tokens.
#[verifier::opaque]
pub open spec fn commented(s: Scan, c: char, top: Frame, under: Frame) -> Stepped {
    match s.mode {
        Mode::Line => {
            if c == '\n' {
                keep(in_mode(s, Mode::Space))
            } else {
                keep(s)
            }
        },
        Mode::Slash => {
            if c == '/' {
                keep(in_mode(s, Mode::Line))
            } else if c == '*' {
                keep(in_mode(s, Mode::Block))
            } else {
                step_space(in_mode(s, Mode::Space), c, top, under)
            }
        },
        Mode::Block => {
            if c == '*' {
                keep(in_mode(s, Mode::BlockStar))
            } else {
                keep(s)
            }
        },
        Mode::BlockStar => {
            if c == '/' {
                keep(in_mode(s, Mode::Space))
            } else if c == '*' {
                keep(s)
            } else {
                keep(in_mode(s, Mode::Block))
            }
        },
        _ => keep(s),
    }
}

/// The reader at a character of a comment, or behind a slash between tokens.
#[verifier::when_used_as_spec(commented)]
pub fn step_comment(s: Scan, c: char, top: Frame, under: Frame) -> (r: Stepped)
    ensures
        r == commented(s, c, top, under),
{
    proof {
        reveal(commented);
    }
    match s.mode {
        Mode::Line => {
            if c == '\n' {
                keep(in_mode(s, Mode::Space))
            } else {
                keep(s)
            }
        },
        Mode::Slash => {
            if c == '/' {
                keep(in_mode(s, Mode::Line))
            } else if c == '*' {
                keep(in_mode(s, Mode::Block))
            } else {
                step_space(in_mode(s, Mode::Space), c, top, under)
            }
        },
        Mode::Block => {
            if c == '*' {
                keep(in_mode(s, Mode::BlockStar))
            } else {
                keep(s)
            }
        },
        Mode::BlockStar => {
            if c == '/' {
                keep(in_mode(s, Mode::Space))
            } else if c == '*' {
                keep(s)
            } else {
                keep(in_mode(s, Mode::Block))
            }
        },
        _ => keep(s),
    }
}

/// The reader at a character of a string in double quotes.
#[verifier::opaque]
pub open spec fn quoted(s: Scan, c: char, top: Frame) -> Scan {
    match s.mode {
        Mode::Quoted => {
            if c == '"' {
                if s.is_key {
                    await_next(s, After::Colon)
                } else {
                    finish_value(s, top)
                }
            } else if c == '\\' {
                in_mode(s, Mode::Escape)
            } else {
                s
            }
        },
        Mode::Escape => {
            if c == '"' || c == '\\' || c == '/' || c == 'b' || c == 'f' || c == 'n' || c == 'r'
                || c == 't' {
                in_mode(s, Mode::Quoted)
            } else if c == 'u' {
                begin_hex(s, false)
            } else {
                halt(s)
            }
        },
        Mode::Hex => step_hex(s, c),
        Mode::PairSlash => {
            if c == '\\' {
                in_mode(s, Mode::PairU)
            } else {
                halt(s)
            }
        },
        Mode::PairU => {
            if c == 'u' {
                begin_hex(s, true)
            } else {
                halt(s)
            }
        },
        _ => s,
    }
}

/// The reader at a character of a string in double quotes.
#[verifier::when_used_as_spec(quoted)]
pub fn step_quoted(s: Scan, c: char, top: Frame) -> (r: Scan)
    ensures
        r == quoted(s, c, top),
{
    proof {
        reveal(quoted);
    }
    match s.mode {
        Mode::Quoted => {
            if c == '"' {
                if s.is_key {
                    await_next(s, After::Colon)
                } else {
                    finish_value(s, top)
                }
            } else if c == '\\' {
                in_mode(s, Mode::Escape)
            } else {
                s
            }
        },
        Mode::Escape => {
            if c == '"' || c == '\\' || c == '/' || c == 'b' || c == 'f' || c == 'n' || c == 'r'
                || c == 't' {
                in_mode(s, Mode::Quoted)
            } else if c == 'u' {
                begin_hex(s, false)
            } else {
                halt(s)
            }
        },
        Mode::Hex => step_hex(s, c),
        Mode::PairSlash => {
            if c == '\\' {
                in_mode(s, Mode::PairU)
            } else {
                halt(s)
            }
        },
        Mode::PairU => {
            if c == 'u' {
                begin_hex(s, true)
            } else {
                halt(s)
            }
        },
        _ => s,
    }
}

/// The reader at a character of a string in three quotes.
#[verifier::opaque]
pub open spec fn tripled(s: Scan, c: char, top: Frame) -> Scan {
    if c == '\'' {
        if s.quotes >= 2 {
            finish_value(count_quotes(s, 0), top)
        } else {
            count_quotes(s, one_more(s.quotes))
        }
    } else {
        count_quotes(s, 0)
    }
}

/// The reader at a character of a string in three quotes.
#[verifier::when_used_as_spec(tripled)]
pub fn step_multi(s: Scan, c: char, top: Frame) -> (r: Scan)
    ensures
        r == tripled(s, c, top),
{
    proof {
        reveal(tripled);
    }
    if c == '\'' {
        if s.quotes >= 2 {
            finish_value(count_quotes(s, 0), top)
        } else {
            count_quotes(s, one_more(s.quotes))
        }
    } else {
        count_quotes(s, 0)
    }
}

/// The reader one character on.
#[verifier::opaque]
pub open spec fn stepped(s: Scan, c: char, top: Frame, under: Frame) -> Stepped {
    if s.halted || s.fault.is_some() {
        keep(s)
    } else {
        match s.mode {
            Mode::Space => step_space(s, c, top, under),
            Mode::Line | Mode::Slash | Mode::Block | Mode::BlockStar => step_comment(s, c, top, under),
            Mode::Key => keep(step_key(s, c)),
            Mode::Quoted | Mode::Escape | Mode::Hex | Mode::PairSlash | Mode::PairU => keep(
                step_quoted(s, c, top),
            ),
            Mode::Token => step_token(s, c, top, under),
            Mode::TokenSlash => step_token_slash(s, c, top, under),
            Mode::Multi => keep(step_multi(s, c, top)),
        }
    }
}

/// The reader one character on.
#[verifier::when_used_as_spec(stepped)]
pub fn step(s: Scan, c: char, top: Frame, under: Frame) -> (r: Stepped)
    ensures
        r == stepped(s, c, top, under),
{
    proof {
        reveal(stepped);
    }
    if s.halted || s.fault.is_some() {
        keep(s)
    } else {
        match s.mode {
            Mode::Space => step_space(s, c, top, under),
            Mode::Line | Mode::Slash | Mode::Block | Mode::BlockStar => step_comment(s, c, top, under),
            Mode::Key => keep(step_key(s, c)),
            Mode::Quoted | Mode::Escape | Mode::Hex | Mode::PairSlash | Mode::PairU => keep(
                step_quoted(s, c, top),
            ),
            Mode::Token => step_token(s, c, top, under),
            Mode::TokenSlash => step_token_slash(s, c, top, under),
            Mode::Multi => keep(step_multi(s, c, top)),
        }
    }
}

/// What the reader comes to where the text ends: a comment that is still
/// open, or a value without quotes that is a whole number too great. A slash
/// at the very end belongs to the value.
#[verifier::opaque]
pub open spec fn ended(s: Scan) -> Option<Fault> {
    if s.fault.is_some() || s.halted {
        s.fault
    } else {
        match s.mode {
            Mode::Block => Some(Fault::CommentNotClosed),
            Mode::BlockStar => Some(Fault::CommentNotClosed),
            Mode::Token => {
                if stops(s.number) {
                    Some(Fault::NumberTooGreat)
                } else {
                    None
                }
            },
            Mode::TokenSlash => {
                if stops(next_number(s.number, '/')) {
                    Some(Fault::NumberTooGreat)
                } else {
                    None
                }
            },
            _ => None,
        }
    }
}

/// What the reader comes to where the text ends: a comment that is still
/// open, or a value without quotes that is a whole number too great. A slash
/// at the very end belongs to the value.
#[verifier::when_used_as_spec(ended)]
pub fn end(s: Scan) -> (r: Option<Fault>)
    ensures
        r == ended(s),
{
    proof {
        reveal(ended);
    }
    if s.fault.is_some() || s.halted {
        s.fault
    } else {
        match s.mode {
            Mode::Block => Some(Fault::CommentNotClosed),
            Mode::BlockStar => Some(Fault::CommentNotClosed),
            Mode::Token => {
                if stops(s.number) {
                    Some(Fault::NumberTooGreat)
                } else {
                    None
                }
            },
            Mode::TokenSlash => {
                if stops(next_number(s.number, '/')) {
                    Some(Fault::NumberTooGreat)
                } else {
                    None
                }
            },
            _ => None,
        }
    }
}

/// The first pass has read the whole text as the members of an object
/// without braces: it stands behind a member and inside nothing else. A
/// number or a word that ends with the text is not taken.
#[verifier::opaque]
pub open spec fn completed(s: Scan, top: Frame) -> bool {
    if s.halted || s.fault.is_some() {
        false
    } else {
        match top {
            Frame::Root => match s.mode {
                Mode::Space | Mode::Line => match s.after {
                    After::KeyNext => true,
                    After::KeyCheck => true,
                    _ => false,
                },
                Mode::Token => !accepts(s.number) && !word_accepts(s.keyword),
                Mode::TokenSlash => !accepts(next_number(s.number, '/')),
                _ => false,
            },
            _ => false,
        }
    }
}

/// The first pass has read the whole text as the members of an object
/// without braces: it stands behind a member and inside nothing else. A
/// number or a word that ends with the text is not taken.
#[verifier::when_used_as_spec(completed)]
pub fn complete(s: Scan, top: Frame) -> (r: bool)
    ensures
        r == completed(s, top),
{
    proof {
        reveal(completed);
    }
    if s.halted || s.fault.is_some() {
        false
    } else {
        match top {
            Frame::Root => match s.mode {
                Mode::Space | Mode::Line => match s.after {
                    After::KeyNext => true,
                    After::KeyCheck => true,
                    _ => false,
                },
                Mode::Token => !accepts(s.number) && !word_accepts(s.keyword),
                Mode::TokenSlash => !accepts(next_number(s.number, '/')),
                _ => false,
            },
            _ => false,
        }
    }
}

/// The reader before the first character of a pass.
#[verifier::opaque]
pub open spec fn begun(after: After) -> Scan {
    Scan { mode: Mode::Space, after: after, number: Number { kind: Num::Not, float: false, negative: false, over: false, value: 0 }, keyword: Keyword { which: Word::Not, seen: 0, tail: false }, quotes: 9, line_start: false, newline: true, key_empty: true, key_space: false, key_more: false, is_key: false, hex: 0, unit: Unit::Plain, pair: false, halted: false, fault: None }
}

/// The reader before the first character of a pass.
#[verifier::when_used_as_spec(begun)]
pub fn begin(after: After) -> (r: Scan)
    ensures
        r == begun(after),
{
    proof {
        reveal(begun);
    }
    Scan { mode: Mode::Space, after: after, number: Number { kind: Num::Not, float: false, negative: false, over: false, value: 0 }, keyword: Keyword { which: Word::Not, seen: 0, tail: false }, quotes: 9, line_start: false, newline: true, key_empty: true, key_space: false, key_more: false, is_key: false, hex: 0, unit: Unit::Plain, pair: false, halted: false, fault: None }
}

/// The reader with the character before it noted.
#[verifier::opaque]
pub open spec fn noted(s: Scan, c: char) -> Scan {
    Scan { mode: s.mode, after: s.after, number: s.number, keyword: s.keyword, quotes: s.quotes, line_start: s.line_start, newline: c == '\n', key_empty: s.key_empty, key_space: s.key_space, key_more: s.key_more, is_key: s.is_key, hex: s.hex, unit: s.unit, pair: s.pair, halted: s.halted, fault: s.fault }
}

/// The reader with the character before it noted.
#[verifier::when_used_as_spec(noted)]
pub fn note(s: Scan, c: char) -> (r: Scan)
    ensures
        r == noted(s, c),
{
    proof {
        reveal(noted);
    }
    Scan { mode: s.mode, after: s.after, number: s.number, keyword: s.keyword, quotes: s.quotes, line_start: s.line_start, newline: c == '\n', key_empty: s.key_empty, key_space: s.key_space, key_more: s.key_more, is_key: s.is_key, hex: s.hex, unit: s.unit, pair: s.pair, halted: s.halted, fault: s.fault }
}

/// What the writer is in the middle of when it tries a string as a number.
#[derive(Debug, Clone, Copy, PartialEq, Eq, Structural)]
pub enum Tail {
    /// Nothing yet.
    Start,
    /// The number, or white space behind it.
    Number,
    /// A comment behind the number that ends with its line.
    Line,
    /// A comment behind the number between `/*` and `*/`.
    Block,
    /// A comment behind the number between `/*` and `*/`, just behind a star.
    BlockStar,
    /// The trial is over.
    Done,
}

/// Where the trial of a string as a number stands.
#[derive(Debug, Clone, Copy)]
pub struct Tried {
    pub number: Number,
    pub tail: Tail,
    /// The writer has come to a place where it stops the program.
    pub fault: Option<IntoHjsonError>,
}

/// The trial in another state.
#[verifier::opaque]
pub open spec fn tailed(t: Tried, tail: Tail) -> Tried {
    Tried { number: stage(t.number, Num::Trail), tail: tail, fault: t.fault }
}

/// The trial in another state.
#[verifier::when_used_as_spec(tailed)]
pub fn in_tail(t: Tried, tail: Tail) -> (r: Tried)
    ensures
        r == tailed(t, tail),
{
    proof {
        reveal(tailed);
    }
    Tried { number: stage(t.number, Num::Trail), tail: tail, fault: t.fault }
}

/// The trial where the number is complete and nothing can follow: a whole
/// number too great stops the program.
#[verifier::opaque]
pub open spec fn decided(t: Tried) -> Tried {
    if stops(t.number) {
        Tried { number: t.number, tail: Tail::Done, fault: Some(IntoHjsonError::NumberTooGreat) }
    } else {
        Tried { number: t.number, tail: Tail::Done, fault: t.fault }
    }
}

/// The trial where the number is complete and nothing can follow: a whole
/// number too great stops the program.
#[verifier::when_used_as_spec(decided)]
pub fn decide(t: Tried) -> (r: Tried)
    ensures
        r == decided(t),
{
    proof {
        reveal(decided);
    }
    if stops(t.number) {
        Tried { number: t.number, tail: Tail::Done, fault: Some(IntoHjsonError::NumberTooGreat) }
    } else {
        Tried { number: t.number, tail: Tail::Done, fault: t.fault }
    }
}

/// The trial at a character behind the number that is no part of it: white
/// space and comments are skipped, a separator ends the number, and anything
/// else shows that the string is no number.
#[verifier::opaque]
pub open spec fn behind(t: Tried, c: char) -> Tried {
    if is_blank(c) {
        in_tail(t, Tail::Number)
    } else if c == '#' {
        in_tail(t, Tail::Line)
    } else if c == '/' {
        Tried { number: stage(t.number, Num::TrailSlash), tail: Tail::Number, fault: t.fault }
    } else if c == ',' || c == '}' || c == ']' || c == '\0' {
        decide(in_tail(t, Tail::Number))
    } else {
        Tried { number: t.number, tail: Tail::Done, fault: t.fault }
    }
}

/// The trial at a character behind the number that is no part of it: white
/// space and comments are skipped, a separator ends the number, and anything
/// else shows that the string is no number.
#[verifier::when_used_as_spec(behind)]
pub fn step_behind(t: Tried, c: char) -> (r: Tried)
    ensures
        r == behind(t, c),
{
    proof {
        reveal(behind);
    }
    if is_blank(c) {
        in_tail(t, Tail::Number)
    } else if c == '#' {
        in_tail(t, Tail::Line)
    } else if c == '/' {
        Tried { number: stage(t.number, Num::TrailSlash), tail: Tail::Number, fault: t.fault }
    } else if c == ',' || c == '}' || c == ']' || c == '\0' {
        decide(in_tail(t, Tail::Number))
    } else {
        Tried { number: t.number, tail: Tail::Done, fault: t.fault }
    }
}

/// The trial at a character of the number.
#[verifier::opaque]
pub open spec fn numbered(t: Tried, c: char) -> Tried {
    match t.number.kind {
        Num::Not => Tried { number: t.number, tail: Tail::Done, fault: t.fault },
        Num::TrailSlash => {
            if c == '/' {
                in_tail(t, Tail::Line)
            } else if c == '*' {
                in_tail(t, Tail::Block)
            } else {
                step_behind(in_tail(t, Tail::Number), c)
            }
        },
        Num::Trail => step_behind(t, c),
        Num::Zero => {
            if is_digit(c) {
                Tried { number: t.number, tail: Tail::Done, fault: t.fault }
            } else if c == '.' || c == 'e' || c == 'E' {
                Tried { number: next_number(t.number, c), tail: Tail::Number, fault: t.fault }
            } else {
                step_behind(t, c)
            }
        },
        Num::Int => {
            if is_digit(c) || c == '.' || c == 'e' || c == 'E' {
                Tried { number: next_number(t.number, c), tail: Tail::Number, fault: t.fault }
            } else {
                step_behind(t, c)
            }
        },
        Num::Frac => {
            if is_digit(c) || c == 'e' || c == 'E' {
                Tried { number: next_number(t.number, c), tail: Tail::Number, fault: t.fault }
            } else {
                step_behind(t, c)
            }
        },
        Num::ExpDigits => {
            if is_digit(c) {
                Tried { number: next_number(t.number, c), tail: Tail::Number, fault: t.fault }
            } else {
                step_behind(t, c)
            }
        },
        _ => {
            match next_number(t.number, c).kind {
                Num::Not => Tried { number: t.number, tail: Tail::Done, fault: t.fault },
                _ => Tried { number: next_number(t.number, c), tail: Tail::Number, fault: t.fault },
            }
        },
    }
}

/// The trial at a character of the number.
#[verifier::when_used_as_spec(numbered)]
pub fn step_number(t: Tried, c: char) -> (r: Tried)
    ensures
        r == numbered(t, c),
{
    proof {
        reveal(numbered);
    }
    match t.number.kind {
        Num::Not => Tried { number: t.number, tail: Tail::Done, fault: t.fault },
        Num::TrailSlash => {
            if c == '/' {
                in_tail(t, Tail::Line)
            } else if c == '*' {
                in_tail(t, Tail::Block)
            } else {
                step_behind(in_tail(t, Tail::Number), c)
            }
        },
        Num::Trail => step_behind(t, c),
        Num::Zero => {
            if is_digit(c) {
                Tried { number: t.number, tail: Tail::Done, fault: t.fault }
            } else if c == '.' || c == 'e' || c == 'E' {
                Tried { number: next_number(t.number, c), tail: Tail::Number, fault: t.fault }
            } else {
                step_behind(t, c)
            }
        },
        Num::Int => {
            if is_digit(c) || c == '.' || c == 'e' || c == 'E' {
                Tried { number: next_number(t.number, c), tail: Tail::Number, fault: t.fault }
            } else {
                step_behind(t, c)
            }
        },
        Num::Frac => {
            if is_digit(c) || c == 'e' || c == 'E' {
                Tried { number: next_number(t.number, c), tail: Tail::Number, fault: t.fault }
            } else {
                step_behind(t, c)
            }
        },
        Num::ExpDigits => {
            if is_digit(c) {
                Tried { number: next_number(t.number, c), tail: Tail::Number, fault: t.fault }
            } else {
                step_behind(t, c)
            }
        },
        _ => {
            match next_number(t.number, c).kind {
                Num::Not => Tried { number: t.number, tail: Tail::Done, fault: t.fault },
                _ => Tried { number: next_number(t.number, c), tail: Tail::Number, fault: t.fault },
            }
        },
    }
}

/// The trial one character on.
#[verifier::opaque]
pub open spec fn tried_after(t: Tried, c: char) -> Tried {
    if t.fault.is_some() {
        t
    } else {
        match t.tail {
            Tail::Start => {
                match begin_number(c).kind {
                    Num::Not => Tried { number: begin_number(c), tail: Tail::Done, fault: t.fault },
                    _ => Tried { number: begin_number(c), tail: Tail::Number, fault: t.fault },
                }
            },
            Tail::Number => step_number(t, c),
            Tail::Line => {
                if c == '\n' {
                    in_tail(t, Tail::Number)
                } else {
                    t
                }
            },
            Tail::Block => {
                if c == '*' {
                    in_tail(t, Tail::BlockStar)
                } else {
                    t
                }
            },
            Tail::BlockStar => {
                if c == '/' {
                    in_tail(t, Tail::Number)
                } else if c == '*' {
                    t
                } else {
                    in_tail(t, Tail::Block)
                }
            },
            Tail::Done => t,
        }
    }
}

/// The trial one character on.
#[verifier::when_used_as_spec(tried_after)]
pub fn try_next(t: Tried, c: char) -> (r: Tried)
    ensures
        r == tried_after(t, c),
{
    proof {
        reveal(tried_after);
    }
    if t.fault.is_some() {
        t
    } else {
        match t.tail {
            Tail::Start => {
                match begin_number(c).kind {
                    Num::Not => Tried { number: begin_number(c), tail: Tail::Done, fault: t.fault },
                    _ => Tried { number: begin_number(c), tail: Tail::Number, fault: t.fault },
                }
            },
            Tail::Number => step_number(t, c),
            Tail::Line => {
                if c == '\n' {
                    in_tail(t, Tail::Number)
                } else {
                    t
                }
            },
            Tail::Block => {
                if c == '*' {
                    in_tail(t, Tail::BlockStar)
                } else {
                    t
                }
            },
            Tail::BlockStar => {
                if c == '/' {
                    in_tail(t, Tail::Number)
                } else if c == '*' {
                    t
                } else {
                    in_tail(t, Tail::Block)
                }
            },
            Tail::Done => t,
        }
    }
}

/// What the trial comes to where the string ends: a comment that is still
/// open, or a whole number too great.
#[verifier::opaque]
pub open spec fn tried_end(t: Tried) -> Option<IntoHjsonError> {
    if t.fault.is_some() {
        t.fault
    } else {
        match t.tail {
            Tail::Block => Some(IntoHjsonError::CommentNotClosed),
            Tail::BlockStar => Some(IntoHjsonError::CommentNotClosed),
            Tail::Number => {
                if stops(t.number) {
                    Some(IntoHjsonError::NumberTooGreat)
                } else {
                    None
                }
            },
            Tail::Line => {
                if stops(t.number) {
                    Some(IntoHjsonError::NumberTooGreat)
                } else {
                    None
                }
            },
            _ => None,
        }
    }
}

/// What the trial comes to where the string ends: a comment that is still
/// open, or a whole number too great.
#[verifier::when_used_as_spec(tried_end)]
pub fn try_end(t: Tried) -> (r: Option<IntoHjsonError>)
    ensures
        r == tried_end(t),
{
    proof {
        reveal(tried_end);
    }
    if t.fault.is_some() {
        t.fault
    } else {
        match t.tail {
            Tail::Block => Some(IntoHjsonError::CommentNotClosed),
            Tail::BlockStar => Some(IntoHjsonError::CommentNotClosed),
            Tail::Number => {
                if stops(t.number) {
                    Some(IntoHjsonError::NumberTooGreat)
                } else {
                    None
                }
            },
            Tail::Line => {
                if stops(t.number) {
                    Some(IntoHjsonError::NumberTooGreat)
                } else {
                    None
                }
            },
            _ => None,
        }
    }
}

/// The trial before the first character.
#[verifier::opaque]
pub open spec fn tried_begun() -> Tried {
    Tried { number: Number { kind: Num::Not, float: false, negative: false, over: false, value: 0 }, tail: Tail::Start, fault: None }
}

/// The trial before the first character.
#[verifier::when_used_as_spec(tried_begun)]
pub fn try_begin() -> (r: Tried)
    ensures
        r == tried_begun(),
{
    proof {
        reveal(tried_begun);
    }
    Tried { number: Number { kind: Num::Not, float: false, negative: false, over: false, value: 0 }, tail: Tail::Start, fault: None }
}

/// The frame that the reader is inside of.
pub open spec fn top_of(stack: Seq<Frame>) -> Frame {
    if stack.len() > 0 {
        stack[stack.len() - 1]
    } else {
        Frame::Top
    }
}

/// The frame around the one that the reader is inside of.
pub open spec fn under_of(stack: Seq<Frame>) -> Frame {
    if stack.len() > 1 {
        stack[stack.len() - 2]
    } else {
        Frame::Top
    }
}

/// The frames after a character.
pub open spec fn framed(stack: Seq<Frame>, op: Op) -> Seq<Frame> {
    match op {
        Op::Keep => stack,
        Op::PushArray => stack.push(Frame::Array),
        Op::PushObject => stack.push(Frame::Object),
        Op::Pop => if stack.len() > 0 {
            stack.drop_last()
        } else {
            stack
        },
    }
}

/// The reader and its frames.
pub struct Walk {
    pub scan: Scan,
    pub stack: Seq<Frame>,
}

/// The reader and its frames one character on.
pub open spec fn moved(walk: Walk, c: char) -> Walk {
    let next = stepped(walk.scan, c, top_of(walk.stack), under_of(walk.stack));
    Walk { scan: noted(next.scan, c), stack: framed(walk.stack, next.op) }
}

/// The reader and its frames behind the first `n` characters of a text.
pub open spec fn walked(text: Seq<char>, start: Walk, n: int) -> Walk
    decreases n,
{
    if n <= 0 {
        start
    } else {
        moved(walked(text, start, n - 1), text[n - 1])
    }
}

/// The first pass begins inside an object without braces, where a name is
/// due.
pub open spec fn first_pass() -> Walk {
    Walk { scan: begun(After::Start), stack: seq![Frame::Root] }
}

/// The second pass begins where a value is due.
pub open spec fn second_pass() -> Walk {
    Walk { scan: begun(After::Value), stack: Seq::empty() }
}

/// The place where a pass of the reader over the text stops the program, if
/// there is one.
pub open spec fn pass_fault(text: Seq<char>, start: Walk) -> Option<Fault> {
    ended(walked(text, start, text.len() as int).scan)
}

/// The first pass of the reader reads the whole text.
pub open spec fn first_pass_reads(text: Seq<char>) -> bool {
    let last = walked(text, first_pass(), text.len() as int);
    completed(last.scan, top_of(last.stack))
}

/// Why a text is not handed to `serde_hjson` to be read, if it is not: the
/// reader would stop the program on its first pass, or, where that pass
/// gives up, on its second.
pub open spec fn refusal(text: Seq<char>) -> Option<Fault> {
    match pass_fault(text, first_pass()) {
        Some(fault) => Some(fault),
        None => if first_pass_reads(text) {
            None
        } else {
            pass_fault(text, second_pass())
        },
    }
}

/// The text can be handed to `serde_hjson` to be read.
pub open spec fn readable(text: Seq<char>) -> bool {
    refusal(text) is None
}

/// The frame that the reader is inside of.
fn top(stack: &Vec<Frame>) -> (r: Frame)
    ensures
        r == top_of(stack@),
{
    if stack.len() > 0 {
        stack[stack.len() - 1]
    } else {
        Frame::Top
    }
}

/// The frame around the one that the reader is inside of.
fn under(stack: &Vec<Frame>) -> (r: Frame)
    ensures
        r == under_of(stack@),
{
    if stack.len() > 1 {
        stack[stack.len() - 2]
    } else {
        Frame::Top
    }
}

/// Does to the frames what a character has done.
fn frame(stack: &mut Vec<Frame>, op: Op)
    ensures
        final(stack)@ == framed(old(stack)@, op),
{
    match op {
        Op::Keep => {},
        Op::PushArray => {
            stack.push(Frame::Array);
        },
        Op::PushObject => {
            stack.push(Frame::Object);
        },
        Op::Pop => {
            if stack.len() > 0 {
                stack.pop();
            }
        },
    }
}

/// The trial of a string as a number behind its first `n` characters.
pub open spec fn tried(text: Seq<char>, n: int) -> Tried
    decreases n,
{
    if n <= 0 {
        tried_begun()
    } else {
        tried_after(tried(text, n - 1), text[n - 1])
    }
}

/// Why a string is not handed to `serde_hjson` to be written, if it is not:
/// that crate tries every string as a number before it writes it, and would
/// stop the program in the trial.
pub open spec fn string_fault(text: Seq<char>) -> Option<IntoHjsonError> {
    tried_end(tried(text, text.len() as int))
}

/// The string can be handed to `serde_hjson` to be written.
pub open spec fn writable(text: Seq<char>) -> bool {
    string_fault(text) is None
}

/// Why a string is not handed to `serde_hjson` to be written, if it is not.
pub fn refuse_string(text: &str) -> (r: Option<IntoHjsonError>)
    ensures
        r == string_fault(text@),
{
    let mut trial = try_begin();
    let ghost mut n: int = 0;
    for c in it: text.chars()
        invariant
            n == it.index(),
            it.seq() == text@,
            0 <= n <= text@.len(),
            trial == tried(text@, n),
    {
        assert(c == text@[n]);
        trial = try_next(trial, c);
        proof {
            n = n + 1;
        }
    }
    assert(n == text@.len());
    try_end(trial)
}

/// Why a text is not handed to `serde_hjson` to be read, if it is not.
pub fn refuse(text: &str) -> (r: Option<Fault>)
    ensures
        r == refusal(text@),
{
    let mut first = begin(After::Start);
    let mut first_stack: Vec<Frame> = Vec::new();
    first_stack.push(Frame::Root);
    let mut second = begin(After::Value);
    let mut second_stack: Vec<Frame> = Vec::new();
    let ghost mut n: int = 0;
    proof {
        assert(first_stack@ =~= seq![Frame::Root]);
    }
    for c in it: text.chars()
        invariant
            n == it.index(),
            it.seq() == text@,
            0 <= n <= text@.len(),
            walked(text@, first_pass(), n) == (Walk { scan: first, stack: first_stack@ }),
            walked(text@, second_pass(), n) == (Walk { scan: second, stack: second_stack@ }),
    {
        assert(c == text@[n]);
        let one = step(first, c, top(&first_stack), under(&first_stack));
        first = note(one.scan, c);
        frame(&mut first_stack, one.op);
        let two = step(second, c, top(&second_stack), under(&second_stack));
        second = note(two.scan, c);
        frame(&mut second_stack, two.op);
        proof {
            n = n + 1;
        }
    }
    assert(n == text@.len());
    match end(first) {
        Some(fault) => Some(fault),
        None => if complete(first, top(&first_stack)) {
            None
        } else {
            end(second)
        },
    }
}

} // verus!
