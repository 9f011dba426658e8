//! What holds of the walk over an Hjson text, whatever the text: which
//! faults it can find, and what each of them needs in the text.

use crate::error::Fault;
use crate::source::hjson_scan::{After, Frame, Mode, Num, Number, Scan, Walk, accepted,
    awaiting, begun, commented, digit, ended, failed, finished, first_pass, halted, hex_after,
    hex_begun, item_begun, kept, key_after, key_begun, moded, noted, number_after,
    number_begun, quoted, quoting, readable, refusal, resumed, second_pass, spaced, staged,
    stepped, stopping, token_after, token_begun, token_slashed, token_with, top_of, tripled,
    under_of, value_begun, walked,
};
use vstd::prelude::*;

verus! {

/// What the reader can come to: nothing, or one of the three places where it
/// stops the program.
pub open spec fn a_place(fault: Option<Fault>) -> bool {
    fault is None || fault == Some(Fault::NumberTooGreat) || fault == Some(
        Fault::CommentNotClosed,
    ) || fault == Some(Fault::QuotesLeadLine)
}

/// The token so far has no digit.
pub open spec fn no_digit(n: Number) -> bool {
    n.kind == Num::Not || n.kind == Num::Minus
}

/// The reader has not come to a number too great, and the token that it
/// stands in has no digit.
pub open spec fn no_number(s: Scan) -> bool {
    s.fault != Some(Fault::NumberTooGreat) && no_digit(s.number)
}

/// The reader has not come to three quotes that begin a line.
pub open spec fn no_quotes(s: Scan) -> bool {
    s.fault != Some(Fault::QuotesLeadLine)
}

/// A token without a digit is no number.
proof fn no_digit_is_no_number(n: Number)
    requires
        no_digit(n),
    ensures
        !accepted(n),
        !stopping(n),
{
    reveal(accepted);
    reveal(stopping);
}

/// A token that begins with no digit has none.
proof fn number_begun_without_digit(c: char)
    requires
        !digit(c),
    ensures
        no_digit(number_begun(c)),
{
    reveal(number_begun);
}

/// A token without a digit has none with one more character that is none.
proof fn number_after_without_digit(n: Number, c: char)
    requires
        no_digit(n),
        !digit(c),
    ensures
        no_digit(number_after(n, c)),
{
    reveal(number_after);
    reveal(staged);
}

/// No fault but one of the three: what the reader comes to is nothing, or
/// one of the three places where it stops the program.
pub open spec fn at_a_place(s: Scan) -> bool {
    a_place(s.fault)
}

/// What [`moded`] comes to is no other fault than the three.
proof fn moded_finds_a_place(s: Scan, mode: Mode)
    requires
        at_a_place(s),
    ensures
        at_a_place(moded(s, mode)),
{
    reveal(moded);
}

/// What [`awaiting`] comes to is no other fault than the three.
proof fn awaiting_finds_a_place(s: Scan, after: After)
    requires
        at_a_place(s),
    ensures
        at_a_place(awaiting(s, after)),
{
    reveal(awaiting);
}

/// What [`halted`] comes to is no other fault than the three.
proof fn halted_finds_a_place(s: Scan)
    requires
        at_a_place(s),
    ensures
        at_a_place(halted(s)),
{
    reveal(halted);
}

/// What [`failed`] comes to is no other fault than the three.
proof fn failed_finds_a_place(s: Scan, fault: Fault)
    requires
        at_a_place(s),
        a_place(Some(fault)),
    ensures
        at_a_place(failed(s, fault)),
{
    reveal(failed);
}

/// What [`quoting`] comes to is no other fault than the three.
proof fn quoting_finds_a_place(s: Scan, quotes: u8)
    requires
        at_a_place(s),
    ensures
        at_a_place(quoting(s, quotes)),
{
    reveal(quoting);
}

/// What [`kept`] comes to is no other fault than the three.
proof fn kept_finds_a_place(s: Scan)
    requires
        at_a_place(s),
    ensures
        at_a_place(kept(s).scan),
{
    reveal(kept);
}

/// What [`finished`] comes to is no other fault than the three.
proof fn finished_finds_a_place(s: Scan, top: Frame)
    requires
        at_a_place(s),
    ensures
        at_a_place(finished(s, top)),
{
    reveal(finished);
    assert forall|s: Scan, after: After| at_a_place(s) implies at_a_place(awaiting(s, after)) by {
        awaiting_finds_a_place(s, after);
    }
}

/// What [`token_with`] comes to is no other fault than the three.
proof fn token_with_finds_a_place(s: Scan, c: char)
    requires
        at_a_place(s),
    ensures
        at_a_place(token_with(s, c)),
{
    reveal(token_with);
    assert forall|s: Scan, mode: Mode| at_a_place(s) implies at_a_place(moded(s, mode)) by {
        moded_finds_a_place(s, mode);
    }
    assert forall|s: Scan, fault: Fault| at_a_place(s) && a_place(Some(fault)) implies at_a_place(failed(s, fault)) by {
        failed_finds_a_place(s, fault);
    }
    assert forall|s: Scan, quotes: u8| at_a_place(s) implies at_a_place(quoting(s, quotes)) by {
        quoting_finds_a_place(s, quotes);
    }
}

/// What [`token_begun`] comes to is no other fault than the three.
proof fn token_begun_finds_a_place(s: Scan, c: char)
    requires
        at_a_place(s),
    ensures
        at_a_place(token_begun(s, c)),
{
    reveal(token_begun);
}

/// What [`key_after`] comes to is no other fault than the three.
proof fn key_after_finds_a_place(s: Scan, c: char)
    requires
        at_a_place(s),
    ensures
        at_a_place(key_after(s, c)),
{
    reveal(key_after);
    assert forall|s: Scan, after: After| at_a_place(s) implies at_a_place(awaiting(s, after)) by {
        awaiting_finds_a_place(s, after);
    }
    assert forall|s: Scan| at_a_place(s) implies at_a_place(halted(s)) by {
        halted_finds_a_place(s);
    }
}

/// What [`value_begun`] comes to is no other fault than the three.
proof fn value_begun_finds_a_place(s: Scan, c: char)
    requires
        at_a_place(s),
    ensures
        at_a_place(value_begun(s, c).scan),
{
    reveal(value_begun);
    assert forall|s: Scan, after: After| at_a_place(s) implies at_a_place(awaiting(s, after)) by {
        awaiting_finds_a_place(s, after);
    }
    assert forall|s: Scan| at_a_place(s) implies at_a_place(halted(s)) by {
        halted_finds_a_place(s);
    }
    assert forall|s: Scan| at_a_place(s) implies at_a_place(kept(s).scan) by {
        kept_finds_a_place(s);
    }
    assert forall|s: Scan, c: char| at_a_place(s) implies at_a_place(token_begun(s, c)) by {
        token_begun_finds_a_place(s, c);
    }
}

/// What [`item_begun`] comes to is no other fault than the three.
proof fn item_begun_finds_a_place(s: Scan, c: char, under: Frame)
    requires
        at_a_place(s),
    ensures
        at_a_place(item_begun(s, c, under).scan),
{
    reveal(item_begun);
    assert forall|s: Scan, top: Frame| at_a_place(s) implies at_a_place(finished(s, top)) by {
        finished_finds_a_place(s, top);
    }
    assert forall|s: Scan, c: char| at_a_place(s) implies at_a_place(value_begun(s, c).scan) by {
        value_begun_finds_a_place(s, c);
    }
}

/// What [`key_begun`] comes to is no other fault than the three.
proof fn key_begun_finds_a_place(s: Scan, c: char, top: Frame, under: Frame)
    requires
        at_a_place(s),
    ensures
        at_a_place(key_begun(s, c, top, under).scan),
{
    reveal(key_begun);
    assert forall|s: Scan| at_a_place(s) implies at_a_place(halted(s)) by {
        halted_finds_a_place(s);
    }
    assert forall|s: Scan| at_a_place(s) implies at_a_place(kept(s).scan) by {
        kept_finds_a_place(s);
    }
    assert forall|s: Scan, top: Frame| at_a_place(s) implies at_a_place(finished(s, top)) by {
        finished_finds_a_place(s, top);
    }
    assert forall|s: Scan, c: char| at_a_place(s) implies at_a_place(key_after(s, c)) by {
        key_after_finds_a_place(s, c);
    }
}

/// What [`resumed`] comes to is no other fault than the three.
proof fn resumed_finds_a_place(s: Scan, c: char, top: Frame, under: Frame)
    requires
        at_a_place(s),
    ensures
        at_a_place(resumed(s, c, top, under).scan),
{
    reveal(resumed);
    assert forall|s: Scan, after: After| at_a_place(s) implies at_a_place(awaiting(s, after)) by {
        awaiting_finds_a_place(s, after);
    }
    assert forall|s: Scan| at_a_place(s) implies at_a_place(halted(s)) by {
        halted_finds_a_place(s);
    }
    assert forall|s: Scan| at_a_place(s) implies at_a_place(kept(s).scan) by {
        kept_finds_a_place(s);
    }
    assert forall|s: Scan, c: char| at_a_place(s) implies at_a_place(value_begun(s, c).scan) by {
        value_begun_finds_a_place(s, c);
    }
    assert forall|s: Scan, c: char, under: Frame| at_a_place(s) implies at_a_place(item_begun(s, c, under).scan) by {
        item_begun_finds_a_place(s, c, under);
    }
    assert forall|s: Scan, c: char, top: Frame, under: Frame| at_a_place(s) implies at_a_place(key_begun(s, c, top, under).scan) by {
        key_begun_finds_a_place(s, c, top, under);
    }
}

/// What [`spaced`] comes to is no other fault than the three.
proof fn spaced_finds_a_place(s: Scan, c: char, top: Frame, under: Frame)
    requires
        at_a_place(s),
    ensures
        at_a_place(spaced(s, c, top, under).scan),
{
    reveal(spaced);
    assert forall|s: Scan, mode: Mode| at_a_place(s) implies at_a_place(moded(s, mode)) by {
        moded_finds_a_place(s, mode);
    }
    assert forall|s: Scan| at_a_place(s) implies at_a_place(kept(s).scan) by {
        kept_finds_a_place(s);
    }
    assert forall|s: Scan, c: char, top: Frame, under: Frame| at_a_place(s) implies at_a_place(resumed(s, c, top, under).scan) by {
        resumed_finds_a_place(s, c, top, under);
    }
}

/// What [`token_after`] comes to is no other fault than the three.
proof fn token_after_finds_a_place(s: Scan, c: char, top: Frame, under: Frame)
    requires
        at_a_place(s),
    ensures
        at_a_place(token_after(s, c, top, under).scan),
{
    reveal(token_after);
    assert forall|s: Scan, mode: Mode| at_a_place(s) implies at_a_place(moded(s, mode)) by {
        moded_finds_a_place(s, mode);
    }
    assert forall|s: Scan, fault: Fault| at_a_place(s) && a_place(Some(fault)) implies at_a_place(failed(s, fault)) by {
        failed_finds_a_place(s, fault);
    }
    assert forall|s: Scan| at_a_place(s) implies at_a_place(kept(s).scan) by {
        kept_finds_a_place(s);
    }
    assert forall|s: Scan, top: Frame| at_a_place(s) implies at_a_place(finished(s, top)) by {
        finished_finds_a_place(s, top);
    }
    assert forall|s: Scan, c: char| at_a_place(s) implies at_a_place(token_with(s, c)) by {
        token_with_finds_a_place(s, c);
    }
    assert forall|s: Scan, c: char, top: Frame, under: Frame| at_a_place(s) implies at_a_place(spaced(s, c, top, under).scan) by {
        spaced_finds_a_place(s, c, top, under);
    }
}

/// What [`token_slashed`] comes to is no other fault than the three.
proof fn token_slashed_finds_a_place(s: Scan, c: char, top: Frame, under: Frame)
    requires
        at_a_place(s),
    ensures
        at_a_place(token_slashed(s, c, top, under).scan),
{
    reveal(token_slashed);
    assert forall|s: Scan, mode: Mode| at_a_place(s) implies at_a_place(moded(s, mode)) by {
        moded_finds_a_place(s, mode);
    }
    assert forall|s: Scan, fault: Fault| at_a_place(s) && a_place(Some(fault)) implies at_a_place(failed(s, fault)) by {
        failed_finds_a_place(s, fault);
    }
    assert forall|s: Scan| at_a_place(s) implies at_a_place(kept(s).scan) by {
        kept_finds_a_place(s);
    }
    assert forall|s: Scan, top: Frame| at_a_place(s) implies at_a_place(finished(s, top)) by {
        finished_finds_a_place(s, top);
    }
    assert forall|s: Scan, c: char| at_a_place(s) implies at_a_place(token_with(s, c)) by {
        token_with_finds_a_place(s, c);
    }
    assert forall|s: Scan, c: char, top: Frame, under: Frame| at_a_place(s) implies at_a_place(token_after(s, c, top, under).scan) by {
        token_after_finds_a_place(s, c, top, under);
    }
}

/// What [`hex_begun`] comes to is no other fault than the three.
proof fn hex_begun_finds_a_place(s: Scan, pair: bool)
    requires
        at_a_place(s),
    ensures
        at_a_place(hex_begun(s, pair)),
{
    reveal(hex_begun);
}

/// What [`hex_after`] comes to is no other fault than the three.
proof fn hex_after_finds_a_place(s: Scan, c: char)
    requires
        at_a_place(s),
    ensures
        at_a_place(hex_after(s, c)),
{
    reveal(hex_after);
    assert forall|s: Scan, mode: Mode| at_a_place(s) implies at_a_place(moded(s, mode)) by {
        moded_finds_a_place(s, mode);
    }
    assert forall|s: Scan| at_a_place(s) implies at_a_place(halted(s)) by {
        halted_finds_a_place(s);
    }
}

/// What [`commented`] comes to is no other fault than the three.
proof fn commented_finds_a_place(s: Scan, c: char, top: Frame, under: Frame)
    requires
        at_a_place(s),
    ensures
        at_a_place(commented(s, c, top, under).scan),
{
    reveal(commented);
    assert forall|s: Scan, mode: Mode| at_a_place(s) implies at_a_place(moded(s, mode)) by {
        moded_finds_a_place(s, mode);
    }
    assert forall|s: Scan| at_a_place(s) implies at_a_place(kept(s).scan) by {
        kept_finds_a_place(s);
    }
    assert forall|s: Scan, c: char, top: Frame, under: Frame| at_a_place(s) implies at_a_place(spaced(s, c, top, under).scan) by {
        spaced_finds_a_place(s, c, top, under);
    }
}

/// What [`quoted`] comes to is no other fault than the three.
proof fn quoted_finds_a_place(s: Scan, c: char, top: Frame)
    requires
        at_a_place(s),
    ensures
        at_a_place(quoted(s, c, top)),
{
    reveal(quoted);
    assert forall|s: Scan, mode: Mode| at_a_place(s) implies at_a_place(moded(s, mode)) by {
        moded_finds_a_place(s, mode);
    }
    assert forall|s: Scan, after: After| at_a_place(s) implies at_a_place(awaiting(s, after)) by {
        awaiting_finds_a_place(s, after);
    }
    assert forall|s: Scan| at_a_place(s) implies at_a_place(halted(s)) by {
        halted_finds_a_place(s);
    }
    assert forall|s: Scan, top: Frame| at_a_place(s) implies at_a_place(finished(s, top)) by {
        finished_finds_a_place(s, top);
    }
    assert forall|s: Scan, pair: bool| at_a_place(s) implies at_a_place(hex_begun(s, pair)) by {
        hex_begun_finds_a_place(s, pair);
    }
    assert forall|s: Scan, c: char| at_a_place(s) implies at_a_place(hex_after(s, c)) by {
        hex_after_finds_a_place(s, c);
    }
}

/// What [`tripled`] comes to is no other fault than the three.
proof fn tripled_finds_a_place(s: Scan, c: char, top: Frame)
    requires
        at_a_place(s),
    ensures
        at_a_place(tripled(s, c, top)),
{
    reveal(tripled);
    assert forall|s: Scan, quotes: u8| at_a_place(s) implies at_a_place(quoting(s, quotes)) by {
        quoting_finds_a_place(s, quotes);
    }
    assert forall|s: Scan, top: Frame| at_a_place(s) implies at_a_place(finished(s, top)) by {
        finished_finds_a_place(s, top);
    }
}

/// What [`stepped`] comes to is no other fault than the three.
proof fn stepped_finds_a_place(s: Scan, c: char, top: Frame, under: Frame)
    requires
        at_a_place(s),
    ensures
        at_a_place(stepped(s, c, top, under).scan),
{
    reveal(stepped);
    assert forall|s: Scan| at_a_place(s) implies at_a_place(kept(s).scan) by {
        kept_finds_a_place(s);
    }
    assert forall|s: Scan, c: char| at_a_place(s) implies at_a_place(key_after(s, c)) by {
        key_after_finds_a_place(s, c);
    }
    assert forall|s: Scan, c: char, top: Frame, under: Frame| at_a_place(s) implies at_a_place(spaced(s, c, top, under).scan) by {
        spaced_finds_a_place(s, c, top, under);
    }
    assert forall|s: Scan, c: char, top: Frame, under: Frame| at_a_place(s) implies at_a_place(token_after(s, c, top, under).scan) by {
        token_after_finds_a_place(s, c, top, under);
    }
    assert forall|s: Scan, c: char, top: Frame, under: Frame| at_a_place(s) implies at_a_place(token_slashed(s, c, top, under).scan) by {
        token_slashed_finds_a_place(s, c, top, under);
    }
    assert forall|s: Scan, c: char, top: Frame, under: Frame| at_a_place(s) implies at_a_place(commented(s, c, top, under).scan) by {
        commented_finds_a_place(s, c, top, under);
    }
    assert forall|s: Scan, c: char, top: Frame| at_a_place(s) implies at_a_place(quoted(s, c, top)) by {
        quoted_finds_a_place(s, c, top);
    }
    assert forall|s: Scan, c: char, top: Frame| at_a_place(s) implies at_a_place(tripled(s, c, top)) by {
        tripled_finds_a_place(s, c, top);
    }
}

/// What [`begun`] comes to is no other fault than the three.
proof fn begun_finds_a_place(after: After)
    ensures
        at_a_place(begun(after)),
{
    reveal(begun);
}

/// What [`noted`] comes to is no other fault than the three.
proof fn noted_finds_a_place(s: Scan, c: char)
    requires
        at_a_place(s),
    ensures
        at_a_place(noted(s, c)),
{
    reveal(noted);
}

/// Without a quote [`moded`] comes to no three quotes.
proof fn moded_needs_a_quote(s: Scan, mode: Mode)
    requires
        no_quotes(s),
    ensures
        no_quotes(moded(s, mode)),
{
    reveal(moded);
}

/// Without a quote [`awaiting`] comes to no three quotes.
proof fn awaiting_needs_a_quote(s: Scan, after: After)
    requires
        no_quotes(s),
    ensures
        no_quotes(awaiting(s, after)),
{
    reveal(awaiting);
}

/// Without a quote [`halted`] comes to no three quotes.
proof fn halted_needs_a_quote(s: Scan)
    requires
        no_quotes(s),
    ensures
        no_quotes(halted(s)),
{
    reveal(halted);
}

/// Without a quote [`failed`] comes to no three quotes.
proof fn failed_needs_a_quote(s: Scan, fault: Fault)
    requires
        no_quotes(s),
        fault != Fault::QuotesLeadLine,
    ensures
        no_quotes(failed(s, fault)),
{
    reveal(failed);
}

/// Without a quote [`quoting`] comes to no three quotes.
proof fn quoting_needs_a_quote(s: Scan, quotes: u8)
    requires
        no_quotes(s),
    ensures
        no_quotes(quoting(s, quotes)),
{
    reveal(quoting);
}

/// Without a quote [`kept`] comes to no three quotes.
proof fn kept_needs_a_quote(s: Scan)
    requires
        no_quotes(s),
    ensures
        no_quotes(kept(s).scan),
{
    reveal(kept);
}

/// Without a quote [`finished`] comes to no three quotes.
proof fn finished_needs_a_quote(s: Scan, top: Frame)
    requires
        no_quotes(s),
    ensures
        no_quotes(finished(s, top)),
{
    reveal(finished);
    assert forall|s: Scan, after: After| no_quotes(s) implies no_quotes(awaiting(s, after)) by {
        awaiting_needs_a_quote(s, after);
    }
}

/// Without a quote [`token_with`] comes to no three quotes.
proof fn token_with_needs_a_quote(s: Scan, c: char)
    requires
        no_quotes(s),
        c != '\'',
    ensures
        no_quotes(token_with(s, c)),
{
    reveal(token_with);
    assert forall|s: Scan, mode: Mode| no_quotes(s) implies no_quotes(moded(s, mode)) by {
        moded_needs_a_quote(s, mode);
    }
    assert forall|s: Scan, fault: Fault| no_quotes(s) && fault != Fault::QuotesLeadLine implies no_quotes(failed(s, fault)) by {
        failed_needs_a_quote(s, fault);
    }
    assert forall|s: Scan, quotes: u8| no_quotes(s) implies no_quotes(quoting(s, quotes)) by {
        quoting_needs_a_quote(s, quotes);
    }
}

/// Without a quote [`token_begun`] comes to no three quotes.
proof fn token_begun_needs_a_quote(s: Scan, c: char)
    requires
        no_quotes(s),
        c != '\'',
    ensures
        no_quotes(token_begun(s, c)),
{
    reveal(token_begun);
}

/// Without a quote [`key_after`] comes to no three quotes.
proof fn key_after_needs_a_quote(s: Scan, c: char)
    requires
        no_quotes(s),
        c != '\'',
    ensures
        no_quotes(key_after(s, c)),
{
    reveal(key_after);
    assert forall|s: Scan, after: After| no_quotes(s) implies no_quotes(awaiting(s, after)) by {
        awaiting_needs_a_quote(s, after);
    }
    assert forall|s: Scan| no_quotes(s) implies no_quotes(halted(s)) by {
        halted_needs_a_quote(s);
    }
}

/// Without a quote [`value_begun`] comes to no three quotes.
proof fn value_begun_needs_a_quote(s: Scan, c: char)
    requires
        no_quotes(s),
        c != '\'',
    ensures
        no_quotes(value_begun(s, c).scan),
{
    reveal(value_begun);
    assert forall|s: Scan, after: After| no_quotes(s) implies no_quotes(awaiting(s, after)) by {
        awaiting_needs_a_quote(s, after);
    }
    assert forall|s: Scan| no_quotes(s) implies no_quotes(halted(s)) by {
        halted_needs_a_quote(s);
    }
    assert forall|s: Scan| no_quotes(s) implies no_quotes(kept(s).scan) by {
        kept_needs_a_quote(s);
    }
    assert forall|s: Scan, c: char| no_quotes(s) && c != '\'' implies no_quotes(token_begun(s, c)) by {
        token_begun_needs_a_quote(s, c);
    }
}

/// Without a quote [`item_begun`] comes to no three quotes.
proof fn item_begun_needs_a_quote(s: Scan, c: char, under: Frame)
    requires
        no_quotes(s),
        c != '\'',
    ensures
        no_quotes(item_begun(s, c, under).scan),
{
    reveal(item_begun);
    assert forall|s: Scan, top: Frame| no_quotes(s) implies no_quotes(finished(s, top)) by {
        finished_needs_a_quote(s, top);
    }
    assert forall|s: Scan, c: char| no_quotes(s) && c != '\'' implies no_quotes(value_begun(s, c).scan) by {
        value_begun_needs_a_quote(s, c);
    }
}

/// Without a quote [`key_begun`] comes to no three quotes.
proof fn key_begun_needs_a_quote(s: Scan, c: char, top: Frame, under: Frame)
    requires
        no_quotes(s),
        c != '\'',
    ensures
        no_quotes(key_begun(s, c, top, under).scan),
{
    reveal(key_begun);
    assert forall|s: Scan| no_quotes(s) implies no_quotes(halted(s)) by {
        halted_needs_a_quote(s);
    }
    assert forall|s: Scan| no_quotes(s) implies no_quotes(kept(s).scan) by {
        kept_needs_a_quote(s);
    }
    assert forall|s: Scan, top: Frame| no_quotes(s) implies no_quotes(finished(s, top)) by {
        finished_needs_a_quote(s, top);
    }
    assert forall|s: Scan, c: char| no_quotes(s) && c != '\'' implies no_quotes(key_after(s, c)) by {
        key_after_needs_a_quote(s, c);
    }
}

/// Without a quote [`resumed`] comes to no three quotes.
proof fn resumed_needs_a_quote(s: Scan, c: char, top: Frame, under: Frame)
    requires
        no_quotes(s),
        c != '\'',
    ensures
        no_quotes(resumed(s, c, top, under).scan),
{
    reveal(resumed);
    assert forall|s: Scan, after: After| no_quotes(s) implies no_quotes(awaiting(s, after)) by {
        awaiting_needs_a_quote(s, after);
    }
    assert forall|s: Scan| no_quotes(s) implies no_quotes(halted(s)) by {
        halted_needs_a_quote(s);
    }
    assert forall|s: Scan| no_quotes(s) implies no_quotes(kept(s).scan) by {
        kept_needs_a_quote(s);
    }
    assert forall|s: Scan, c: char| no_quotes(s) && c != '\'' implies no_quotes(value_begun(s, c).scan) by {
        value_begun_needs_a_quote(s, c);
    }
    assert forall|s: Scan, c: char, under: Frame| no_quotes(s) && c != '\'' implies no_quotes(item_begun(s, c, under).scan) by {
        item_begun_needs_a_quote(s, c, under);
    }
    assert forall|s: Scan, c: char, top: Frame, under: Frame| no_quotes(s) && c != '\'' implies no_quotes(key_begun(s, c, top, under).scan) by {
        key_begun_needs_a_quote(s, c, top, under);
    }
}

/// Without a quote [`spaced`] comes to no three quotes.
proof fn spaced_needs_a_quote(s: Scan, c: char, top: Frame, under: Frame)
    requires
        no_quotes(s),
        c != '\'',
    ensures
        no_quotes(spaced(s, c, top, under).scan),
{
    reveal(spaced);
    assert forall|s: Scan, mode: Mode| no_quotes(s) implies no_quotes(moded(s, mode)) by {
        moded_needs_a_quote(s, mode);
    }
    assert forall|s: Scan| no_quotes(s) implies no_quotes(kept(s).scan) by {
        kept_needs_a_quote(s);
    }
    assert forall|s: Scan, c: char, top: Frame, under: Frame| no_quotes(s) && c != '\'' implies no_quotes(resumed(s, c, top, under).scan) by {
        resumed_needs_a_quote(s, c, top, under);
    }
}

/// Without a quote [`token_after`] comes to no three quotes.
proof fn token_after_needs_a_quote(s: Scan, c: char, top: Frame, under: Frame)
    requires
        no_quotes(s),
        c != '\'',
    ensures
        no_quotes(token_after(s, c, top, under).scan),
{
    reveal(token_after);
    assert forall|s: Scan, mode: Mode| no_quotes(s) implies no_quotes(moded(s, mode)) by {
        moded_needs_a_quote(s, mode);
    }
    assert forall|s: Scan, fault: Fault| no_quotes(s) && fault != Fault::QuotesLeadLine implies no_quotes(failed(s, fault)) by {
        failed_needs_a_quote(s, fault);
    }
    assert forall|s: Scan| no_quotes(s) implies no_quotes(kept(s).scan) by {
        kept_needs_a_quote(s);
    }
    assert forall|s: Scan, top: Frame| no_quotes(s) implies no_quotes(finished(s, top)) by {
        finished_needs_a_quote(s, top);
    }
    assert forall|s: Scan, c: char| no_quotes(s) && c != '\'' implies no_quotes(token_with(s, c)) by {
        token_with_needs_a_quote(s, c);
    }
    assert forall|s: Scan, c: char, top: Frame, under: Frame| no_quotes(s) && c != '\'' implies no_quotes(spaced(s, c, top, under).scan) by {
        spaced_needs_a_quote(s, c, top, under);
    }
}

/// Without a quote [`token_slashed`] comes to no three quotes.
proof fn token_slashed_needs_a_quote(s: Scan, c: char, top: Frame, under: Frame)
    requires
        no_quotes(s),
        c != '\'',
    ensures
        no_quotes(token_slashed(s, c, top, under).scan),
{
    reveal(token_slashed);
    assert forall|s: Scan, mode: Mode| no_quotes(s) implies no_quotes(moded(s, mode)) by {
        moded_needs_a_quote(s, mode);
    }
    assert forall|s: Scan, fault: Fault| no_quotes(s) && fault != Fault::QuotesLeadLine implies no_quotes(failed(s, fault)) by {
        failed_needs_a_quote(s, fault);
    }
    assert forall|s: Scan| no_quotes(s) implies no_quotes(kept(s).scan) by {
        kept_needs_a_quote(s);
    }
    assert forall|s: Scan, top: Frame| no_quotes(s) implies no_quotes(finished(s, top)) by {
        finished_needs_a_quote(s, top);
    }
    assert forall|s: Scan, c: char| no_quotes(s) && c != '\'' implies no_quotes(token_with(s, c)) by {
        token_with_needs_a_quote(s, c);
    }
    assert forall|s: Scan, c: char, top: Frame, under: Frame| no_quotes(s) && c != '\'' implies no_quotes(token_after(s, c, top, under).scan) by {
        token_after_needs_a_quote(s, c, top, under);
    }
}

/// Without a quote [`hex_begun`] comes to no three quotes.
proof fn hex_begun_needs_a_quote(s: Scan, pair: bool)
    requires
        no_quotes(s),
    ensures
        no_quotes(hex_begun(s, pair)),
{
    reveal(hex_begun);
}

/// Without a quote [`hex_after`] comes to no three quotes.
proof fn hex_after_needs_a_quote(s: Scan, c: char)
    requires
        no_quotes(s),
        c != '\'',
    ensures
        no_quotes(hex_after(s, c)),
{
    reveal(hex_after);
    assert forall|s: Scan, mode: Mode| no_quotes(s) implies no_quotes(moded(s, mode)) by {
        moded_needs_a_quote(s, mode);
    }
    assert forall|s: Scan| no_quotes(s) implies no_quotes(halted(s)) by {
        halted_needs_a_quote(s);
    }
}

/// Without a quote [`commented`] comes to no three quotes.
proof fn commented_needs_a_quote(s: Scan, c: char, top: Frame, under: Frame)
    requires
        no_quotes(s),
        c != '\'',
    ensures
        no_quotes(commented(s, c, top, under).scan),
{
    reveal(commented);
    assert forall|s: Scan, mode: Mode| no_quotes(s) implies no_quotes(moded(s, mode)) by {
        moded_needs_a_quote(s, mode);
    }
    assert forall|s: Scan| no_quotes(s) implies no_quotes(kept(s).scan) by {
        kept_needs_a_quote(s);
    }
    assert forall|s: Scan, c: char, top: Frame, under: Frame| no_quotes(s) && c != '\'' implies no_quotes(spaced(s, c, top, under).scan) by {
        spaced_needs_a_quote(s, c, top, under);
    }
}

/// Without a quote [`quoted`] comes to no three quotes.
proof fn quoted_needs_a_quote(s: Scan, c: char, top: Frame)
    requires
        no_quotes(s),
        c != '\'',
    ensures
        no_quotes(quoted(s, c, top)),
{
    reveal(quoted);
    assert forall|s: Scan, mode: Mode| no_quotes(s) implies no_quotes(moded(s, mode)) by {
        moded_needs_a_quote(s, mode);
    }
    assert forall|s: Scan, after: After| no_quotes(s) implies no_quotes(awaiting(s, after)) by {
        awaiting_needs_a_quote(s, after);
    }
    assert forall|s: Scan| no_quotes(s) implies no_quotes(halted(s)) by {
        halted_needs_a_quote(s);
    }
    assert forall|s: Scan, top: Frame| no_quotes(s) implies no_quotes(finished(s, top)) by {
        finished_needs_a_quote(s, top);
    }
    assert forall|s: Scan, pair: bool| no_quotes(s) implies no_quotes(hex_begun(s, pair)) by {
        hex_begun_needs_a_quote(s, pair);
    }
    assert forall|s: Scan, c: char| no_quotes(s) && c != '\'' implies no_quotes(hex_after(s, c)) by {
        hex_after_needs_a_quote(s, c);
    }
}

/// Without a quote [`tripled`] comes to no three quotes.
proof fn tripled_needs_a_quote(s: Scan, c: char, top: Frame)
    requires
        no_quotes(s),
        c != '\'',
    ensures
        no_quotes(tripled(s, c, top)),
{
    reveal(tripled);
    assert forall|s: Scan, quotes: u8| no_quotes(s) implies no_quotes(quoting(s, quotes)) by {
        quoting_needs_a_quote(s, quotes);
    }
    assert forall|s: Scan, top: Frame| no_quotes(s) implies no_quotes(finished(s, top)) by {
        finished_needs_a_quote(s, top);
    }
}

/// Without a quote [`stepped`] comes to no three quotes.
proof fn stepped_needs_a_quote(s: Scan, c: char, top: Frame, under: Frame)
    requires
        no_quotes(s),
        c != '\'',
    ensures
        no_quotes(stepped(s, c, top, under).scan),
{
    reveal(stepped);
    assert forall|s: Scan| no_quotes(s) implies no_quotes(kept(s).scan) by {
        kept_needs_a_quote(s);
    }
    assert forall|s: Scan, c: char| no_quotes(s) && c != '\'' implies no_quotes(key_after(s, c)) by {
        key_after_needs_a_quote(s, c);
    }
    assert forall|s: Scan, c: char, top: Frame, under: Frame| no_quotes(s) && c != '\'' implies no_quotes(spaced(s, c, top, under).scan) by {
        spaced_needs_a_quote(s, c, top, under);
    }
    assert forall|s: Scan, c: char, top: Frame, under: Frame| no_quotes(s) && c != '\'' implies no_quotes(token_after(s, c, top, under).scan) by {
        token_after_needs_a_quote(s, c, top, under);
    }
    assert forall|s: Scan, c: char, top: Frame, under: Frame| no_quotes(s) && c != '\'' implies no_quotes(token_slashed(s, c, top, under).scan) by {
        token_slashed_needs_a_quote(s, c, top, under);
    }
    assert forall|s: Scan, c: char, top: Frame, under: Frame| no_quotes(s) && c != '\'' implies no_quotes(commented(s, c, top, under).scan) by {
        commented_needs_a_quote(s, c, top, under);
    }
    assert forall|s: Scan, c: char, top: Frame| no_quotes(s) && c != '\'' implies no_quotes(quoted(s, c, top)) by {
        quoted_needs_a_quote(s, c, top);
    }
    assert forall|s: Scan, c: char, top: Frame| no_quotes(s) && c != '\'' implies no_quotes(tripled(s, c, top)) by {
        tripled_needs_a_quote(s, c, top);
    }
}

/// Without a quote [`begun`] comes to no three quotes.
proof fn begun_needs_a_quote(after: After)
    ensures
        no_quotes(begun(after)),
{
    reveal(begun);
}

/// Without a quote [`noted`] comes to no three quotes.
proof fn noted_needs_a_quote(s: Scan, c: char)
    requires
        no_quotes(s),
        c != '\'',
    ensures
        no_quotes(noted(s, c)),
{
    reveal(noted);
}

/// Without a digit [`moded`] comes to no number.
proof fn moded_needs_a_digit(s: Scan, mode: Mode)
    requires
        no_number(s),
    ensures
        no_number(moded(s, mode)),
{
    reveal(moded);
    assert forall|n: Number| no_digit(n) implies !accepted(n) && !stopping(n) by {
        no_digit_is_no_number(n);
    }
    assert forall|c: char| !digit(c) implies no_digit(number_begun(c)) by {
        number_begun_without_digit(c);
    }
    assert forall|n: Number, c: char| no_digit(n) && !digit(c) implies no_digit(number_after(n, c)) by {
        number_after_without_digit(n, c);
    }
}

/// Without a digit [`awaiting`] comes to no number.
proof fn awaiting_needs_a_digit(s: Scan, after: After)
    requires
        no_number(s),
    ensures
        no_number(awaiting(s, after)),
{
    reveal(awaiting);
    assert forall|n: Number| no_digit(n) implies !accepted(n) && !stopping(n) by {
        no_digit_is_no_number(n);
    }
    assert forall|c: char| !digit(c) implies no_digit(number_begun(c)) by {
        number_begun_without_digit(c);
    }
    assert forall|n: Number, c: char| no_digit(n) && !digit(c) implies no_digit(number_after(n, c)) by {
        number_after_without_digit(n, c);
    }
}

/// Without a digit [`halted`] comes to no number.
proof fn halted_needs_a_digit(s: Scan)
    requires
        no_number(s),
    ensures
        no_number(halted(s)),
{
    reveal(halted);
    assert forall|n: Number| no_digit(n) implies !accepted(n) && !stopping(n) by {
        no_digit_is_no_number(n);
    }
    assert forall|c: char| !digit(c) implies no_digit(number_begun(c)) by {
        number_begun_without_digit(c);
    }
    assert forall|n: Number, c: char| no_digit(n) && !digit(c) implies no_digit(number_after(n, c)) by {
        number_after_without_digit(n, c);
    }
}

/// Without a digit [`failed`] comes to no number.
proof fn failed_needs_a_digit(s: Scan, fault: Fault)
    requires
        no_number(s),
        fault != Fault::NumberTooGreat,
    ensures
        no_number(failed(s, fault)),
{
    reveal(failed);
    assert forall|n: Number| no_digit(n) implies !accepted(n) && !stopping(n) by {
        no_digit_is_no_number(n);
    }
    assert forall|c: char| !digit(c) implies no_digit(number_begun(c)) by {
        number_begun_without_digit(c);
    }
    assert forall|n: Number, c: char| no_digit(n) && !digit(c) implies no_digit(number_after(n, c)) by {
        number_after_without_digit(n, c);
    }
}

/// Without a digit [`quoting`] comes to no number.
proof fn quoting_needs_a_digit(s: Scan, quotes: u8)
    requires
        no_number(s),
    ensures
        no_number(quoting(s, quotes)),
{
    reveal(quoting);
    assert forall|n: Number| no_digit(n) implies !accepted(n) && !stopping(n) by {
        no_digit_is_no_number(n);
    }
    assert forall|c: char| !digit(c) implies no_digit(number_begun(c)) by {
        number_begun_without_digit(c);
    }
    assert forall|n: Number, c: char| no_digit(n) && !digit(c) implies no_digit(number_after(n, c)) by {
        number_after_without_digit(n, c);
    }
}

/// Without a digit [`kept`] comes to no number.
proof fn kept_needs_a_digit(s: Scan)
    requires
        no_number(s),
    ensures
        no_number(kept(s).scan),
{
    reveal(kept);
    assert forall|n: Number| no_digit(n) implies !accepted(n) && !stopping(n) by {
        no_digit_is_no_number(n);
    }
    assert forall|c: char| !digit(c) implies no_digit(number_begun(c)) by {
        number_begun_without_digit(c);
    }
    assert forall|n: Number, c: char| no_digit(n) && !digit(c) implies no_digit(number_after(n, c)) by {
        number_after_without_digit(n, c);
    }
}

/// Without a digit [`finished`] comes to no number.
proof fn finished_needs_a_digit(s: Scan, top: Frame)
    requires
        no_number(s),
    ensures
        no_number(finished(s, top)),
{
    reveal(finished);
    assert forall|n: Number| no_digit(n) implies !accepted(n) && !stopping(n) by {
        no_digit_is_no_number(n);
    }
    assert forall|c: char| !digit(c) implies no_digit(number_begun(c)) by {
        number_begun_without_digit(c);
    }
    assert forall|n: Number, c: char| no_digit(n) && !digit(c) implies no_digit(number_after(n, c)) by {
        number_after_without_digit(n, c);
    }
    assert forall|s: Scan, after: After| no_number(s) implies no_number(awaiting(s, after)) by {
        awaiting_needs_a_digit(s, after);
    }
}

/// Without a digit [`token_with`] comes to no number.
proof fn token_with_needs_a_digit(s: Scan, c: char)
    requires
        no_number(s),
        !digit(c),
    ensures
        no_number(token_with(s, c)),
{
    reveal(token_with);
    assert forall|n: Number| no_digit(n) implies !accepted(n) && !stopping(n) by {
        no_digit_is_no_number(n);
    }
    assert forall|c: char| !digit(c) implies no_digit(number_begun(c)) by {
        number_begun_without_digit(c);
    }
    assert forall|n: Number, c: char| no_digit(n) && !digit(c) implies no_digit(number_after(n, c)) by {
        number_after_without_digit(n, c);
    }
    assert forall|s: Scan, mode: Mode| no_number(s) implies no_number(moded(s, mode)) by {
        moded_needs_a_digit(s, mode);
    }
    assert forall|s: Scan, fault: Fault| no_number(s) && fault != Fault::NumberTooGreat implies no_number(failed(s, fault)) by {
        failed_needs_a_digit(s, fault);
    }
    assert forall|s: Scan, quotes: u8| no_number(s) implies no_number(quoting(s, quotes)) by {
        quoting_needs_a_digit(s, quotes);
    }
}

/// Without a digit [`token_begun`] comes to no number.
proof fn token_begun_needs_a_digit(s: Scan, c: char)
    requires
        no_number(s),
        !digit(c),
    ensures
        no_number(token_begun(s, c)),
{
    reveal(token_begun);
    assert forall|n: Number| no_digit(n) implies !accepted(n) && !stopping(n) by {
        no_digit_is_no_number(n);
    }
    assert forall|c: char| !digit(c) implies no_digit(number_begun(c)) by {
        number_begun_without_digit(c);
    }
    assert forall|n: Number, c: char| no_digit(n) && !digit(c) implies no_digit(number_after(n, c)) by {
        number_after_without_digit(n, c);
    }
}

/// Without a digit [`key_after`] comes to no number.
proof fn key_after_needs_a_digit(s: Scan, c: char)
    requires
        no_number(s),
        !digit(c),
    ensures
        no_number(key_after(s, c)),
{
    reveal(key_after);
    assert forall|n: Number| no_digit(n) implies !accepted(n) && !stopping(n) by {
        no_digit_is_no_number(n);
    }
    assert forall|c: char| !digit(c) implies no_digit(number_begun(c)) by {
        number_begun_without_digit(c);
    }
    assert forall|n: Number, c: char| no_digit(n) && !digit(c) implies no_digit(number_after(n, c)) by {
        number_after_without_digit(n, c);
    }
    assert forall|s: Scan, after: After| no_number(s) implies no_number(awaiting(s, after)) by {
        awaiting_needs_a_digit(s, after);
    }
    assert forall|s: Scan| no_number(s) implies no_number(halted(s)) by {
        halted_needs_a_digit(s);
    }
}

/// Without a digit [`value_begun`] comes to no number.
proof fn value_begun_needs_a_digit(s: Scan, c: char)
    requires
        no_number(s),
        !digit(c),
    ensures
        no_number(value_begun(s, c).scan),
{
    reveal(value_begun);
    assert forall|n: Number| no_digit(n) implies !accepted(n) && !stopping(n) by {
        no_digit_is_no_number(n);
    }
    assert forall|c: char| !digit(c) implies no_digit(number_begun(c)) by {
        number_begun_without_digit(c);
    }
    assert forall|n: Number, c: char| no_digit(n) && !digit(c) implies no_digit(number_after(n, c)) by {
        number_after_without_digit(n, c);
    }
    assert forall|s: Scan, after: After| no_number(s) implies no_number(awaiting(s, after)) by {
        awaiting_needs_a_digit(s, after);
    }
    assert forall|s: Scan| no_number(s) implies no_number(halted(s)) by {
        halted_needs_a_digit(s);
    }
    assert forall|s: Scan| no_number(s) implies no_number(kept(s).scan) by {
        kept_needs_a_digit(s);
    }
    assert forall|s: Scan, c: char| no_number(s) && !digit(c) implies no_number(token_begun(s, c)) by {
        token_begun_needs_a_digit(s, c);
    }
}

/// Without a digit [`item_begun`] comes to no number.
proof fn item_begun_needs_a_digit(s: Scan, c: char, under: Frame)
    requires
        no_number(s),
        !digit(c),
    ensures
        no_number(item_begun(s, c, under).scan),
{
    reveal(item_begun);
    assert forall|n: Number| no_digit(n) implies !accepted(n) && !stopping(n) by {
        no_digit_is_no_number(n);
    }
    assert forall|c: char| !digit(c) implies no_digit(number_begun(c)) by {
        number_begun_without_digit(c);
    }
    assert forall|n: Number, c: char| no_digit(n) && !digit(c) implies no_digit(number_after(n, c)) by {
        number_after_without_digit(n, c);
    }
    assert forall|s: Scan, top: Frame| no_number(s) implies no_number(finished(s, top)) by {
        finished_needs_a_digit(s, top);
    }
    assert forall|s: Scan, c: char| no_number(s) && !digit(c) implies no_number(value_begun(s, c).scan) by {
        value_begun_needs_a_digit(s, c);
    }
}

/// Without a digit [`key_begun`] comes to no number.
proof fn key_begun_needs_a_digit(s: Scan, c: char, top: Frame, under: Frame)
    requires
        no_number(s),
        !digit(c),
    ensures
        no_number(key_begun(s, c, top, under).scan),
{
    reveal(key_begun);
    assert forall|n: Number| no_digit(n) implies !accepted(n) && !stopping(n) by {
        no_digit_is_no_number(n);
    }
    assert forall|c: char| !digit(c) implies no_digit(number_begun(c)) by {
        number_begun_without_digit(c);
    }
    assert forall|n: Number, c: char| no_digit(n) && !digit(c) implies no_digit(number_after(n, c)) by {
        number_after_without_digit(n, c);
    }
    assert forall|s: Scan| no_number(s) implies no_number(halted(s)) by {
        halted_needs_a_digit(s);
    }
    assert forall|s: Scan| no_number(s) implies no_number(kept(s).scan) by {
        kept_needs_a_digit(s);
    }
    assert forall|s: Scan, top: Frame| no_number(s) implies no_number(finished(s, top)) by {
        finished_needs_a_digit(s, top);
    }
    assert forall|s: Scan, c: char| no_number(s) && !digit(c) implies no_number(key_after(s, c)) by {
        key_after_needs_a_digit(s, c);
    }
}

/// Without a digit [`resumed`] comes to no number.
proof fn resumed_needs_a_digit(s: Scan, c: char, top: Frame, under: Frame)
    requires
        no_number(s),
        !digit(c),
    ensures
        no_number(resumed(s, c, top, under).scan),
{
    reveal(resumed);
    assert forall|n: Number| no_digit(n) implies !accepted(n) && !stopping(n) by {
        no_digit_is_no_number(n);
    }
    assert forall|c: char| !digit(c) implies no_digit(number_begun(c)) by {
        number_begun_without_digit(c);
    }
    assert forall|n: Number, c: char| no_digit(n) && !digit(c) implies no_digit(number_after(n, c)) by {
        number_after_without_digit(n, c);
    }
    assert forall|s: Scan, after: After| no_number(s) implies no_number(awaiting(s, after)) by {
        awaiting_needs_a_digit(s, after);
    }
    assert forall|s: Scan| no_number(s) implies no_number(halted(s)) by {
        halted_needs_a_digit(s);
    }
    assert forall|s: Scan| no_number(s) implies no_number(kept(s).scan) by {
        kept_needs_a_digit(s);
    }
    assert forall|s: Scan, c: char| no_number(s) && !digit(c) implies no_number(value_begun(s, c).scan) by {
        value_begun_needs_a_digit(s, c);
    }
    assert forall|s: Scan, c: char, under: Frame| no_number(s) && !digit(c) implies no_number(item_begun(s, c, under).scan) by {
        item_begun_needs_a_digit(s, c, under);
    }
    assert forall|s: Scan, c: char, top: Frame, under: Frame| no_number(s) && !digit(c) implies no_number(key_begun(s, c, top, under).scan) by {
        key_begun_needs_a_digit(s, c, top, under);
    }
}

/// Without a digit [`spaced`] comes to no number.
proof fn spaced_needs_a_digit(s: Scan, c: char, top: Frame, under: Frame)
    requires
        no_number(s),
        !digit(c),
    ensures
        no_number(spaced(s, c, top, under).scan),
{
    reveal(spaced);
    assert forall|n: Number| no_digit(n) implies !accepted(n) && !stopping(n) by {
        no_digit_is_no_number(n);
    }
    assert forall|c: char| !digit(c) implies no_digit(number_begun(c)) by {
        number_begun_without_digit(c);
    }
    assert forall|n: Number, c: char| no_digit(n) && !digit(c) implies no_digit(number_after(n, c)) by {
        number_after_without_digit(n, c);
    }
    assert forall|s: Scan, mode: Mode| no_number(s) implies no_number(moded(s, mode)) by {
        moded_needs_a_digit(s, mode);
    }
    assert forall|s: Scan| no_number(s) implies no_number(kept(s).scan) by {
        kept_needs_a_digit(s);
    }
    assert forall|s: Scan, c: char, top: Frame, under: Frame| no_number(s) && !digit(c) implies no_number(resumed(s, c, top, under).scan) by {
        resumed_needs_a_digit(s, c, top, under);
    }
}

/// Without a digit [`token_after`] comes to no number.
proof fn token_after_needs_a_digit(s: Scan, c: char, top: Frame, under: Frame)
    requires
        no_number(s),
        !digit(c),
    ensures
        no_number(token_after(s, c, top, under).scan),
{
    reveal(token_after);
    assert forall|n: Number| no_digit(n) implies !accepted(n) && !stopping(n) by {
        no_digit_is_no_number(n);
    }
    assert forall|c: char| !digit(c) implies no_digit(number_begun(c)) by {
        number_begun_without_digit(c);
    }
    assert forall|n: Number, c: char| no_digit(n) && !digit(c) implies no_digit(number_after(n, c)) by {
        number_after_without_digit(n, c);
    }
    assert forall|s: Scan, mode: Mode| no_number(s) implies no_number(moded(s, mode)) by {
        moded_needs_a_digit(s, mode);
    }
    assert forall|s: Scan, fault: Fault| no_number(s) && fault != Fault::NumberTooGreat implies no_number(failed(s, fault)) by {
        failed_needs_a_digit(s, fault);
    }
    assert forall|s: Scan| no_number(s) implies no_number(kept(s).scan) by {
        kept_needs_a_digit(s);
    }
    assert forall|s: Scan, top: Frame| no_number(s) implies no_number(finished(s, top)) by {
        finished_needs_a_digit(s, top);
    }
    assert forall|s: Scan, c: char| no_number(s) && !digit(c) implies no_number(token_with(s, c)) by {
        token_with_needs_a_digit(s, c);
    }
    assert forall|s: Scan, c: char, top: Frame, under: Frame| no_number(s) && !digit(c) implies no_number(spaced(s, c, top, under).scan) by {
        spaced_needs_a_digit(s, c, top, under);
    }
}

/// Without a digit [`token_slashed`] comes to no number.
proof fn token_slashed_needs_a_digit(s: Scan, c: char, top: Frame, under: Frame)
    requires
        no_number(s),
        !digit(c),
    ensures
        no_number(token_slashed(s, c, top, under).scan),
{
    reveal(token_slashed);
    assert forall|n: Number| no_digit(n) implies !accepted(n) && !stopping(n) by {
        no_digit_is_no_number(n);
    }
    assert forall|c: char| !digit(c) implies no_digit(number_begun(c)) by {
        number_begun_without_digit(c);
    }
    assert forall|n: Number, c: char| no_digit(n) && !digit(c) implies no_digit(number_after(n, c)) by {
        number_after_without_digit(n, c);
    }
    assert forall|s: Scan, mode: Mode| no_number(s) implies no_number(moded(s, mode)) by {
        moded_needs_a_digit(s, mode);
    }
    assert forall|s: Scan, fault: Fault| no_number(s) && fault != Fault::NumberTooGreat implies no_number(failed(s, fault)) by {
        failed_needs_a_digit(s, fault);
    }
    assert forall|s: Scan| no_number(s) implies no_number(kept(s).scan) by {
        kept_needs_a_digit(s);
    }
    assert forall|s: Scan, top: Frame| no_number(s) implies no_number(finished(s, top)) by {
        finished_needs_a_digit(s, top);
    }
    assert forall|s: Scan, c: char| no_number(s) && !digit(c) implies no_number(token_with(s, c)) by {
        token_with_needs_a_digit(s, c);
    }
    assert forall|s: Scan, c: char, top: Frame, under: Frame| no_number(s) && !digit(c) implies no_number(token_after(s, c, top, under).scan) by {
        token_after_needs_a_digit(s, c, top, under);
    }
}

/// Without a digit [`hex_begun`] comes to no number.
proof fn hex_begun_needs_a_digit(s: Scan, pair: bool)
    requires
        no_number(s),
    ensures
        no_number(hex_begun(s, pair)),
{
    reveal(hex_begun);
    assert forall|n: Number| no_digit(n) implies !accepted(n) && !stopping(n) by {
        no_digit_is_no_number(n);
    }
    assert forall|c: char| !digit(c) implies no_digit(number_begun(c)) by {
        number_begun_without_digit(c);
    }
    assert forall|n: Number, c: char| no_digit(n) && !digit(c) implies no_digit(number_after(n, c)) by {
        number_after_without_digit(n, c);
    }
}

/// Without a digit [`hex_after`] comes to no number.
proof fn hex_after_needs_a_digit(s: Scan, c: char)
    requires
        no_number(s),
        !digit(c),
    ensures
        no_number(hex_after(s, c)),
{
    reveal(hex_after);
    assert forall|n: Number| no_digit(n) implies !accepted(n) && !stopping(n) by {
        no_digit_is_no_number(n);
    }
    assert forall|c: char| !digit(c) implies no_digit(number_begun(c)) by {
        number_begun_without_digit(c);
    }
    assert forall|n: Number, c: char| no_digit(n) && !digit(c) implies no_digit(number_after(n, c)) by {
        number_after_without_digit(n, c);
    }
    assert forall|s: Scan, mode: Mode| no_number(s) implies no_number(moded(s, mode)) by {
        moded_needs_a_digit(s, mode);
    }
    assert forall|s: Scan| no_number(s) implies no_number(halted(s)) by {
        halted_needs_a_digit(s);
    }
}

/// Without a digit [`commented`] comes to no number.
proof fn commented_needs_a_digit(s: Scan, c: char, top: Frame, under: Frame)
    requires
        no_number(s),
        !digit(c),
    ensures
        no_number(commented(s, c, top, under).scan),
{
    reveal(commented);
    assert forall|n: Number| no_digit(n) implies !accepted(n) && !stopping(n) by {
        no_digit_is_no_number(n);
    }
    assert forall|c: char| !digit(c) implies no_digit(number_begun(c)) by {
        number_begun_without_digit(c);
    }
    assert forall|n: Number, c: char| no_digit(n) && !digit(c) implies no_digit(number_after(n, c)) by {
        number_after_without_digit(n, c);
    }
    assert forall|s: Scan, mode: Mode| no_number(s) implies no_number(moded(s, mode)) by {
        moded_needs_a_digit(s, mode);
    }
    assert forall|s: Scan| no_number(s) implies no_number(kept(s).scan) by {
        kept_needs_a_digit(s);
    }
    assert forall|s: Scan, c: char, top: Frame, under: Frame| no_number(s) && !digit(c) implies no_number(spaced(s, c, top, under).scan) by {
        spaced_needs_a_digit(s, c, top, under);
    }
}

/// Without a digit [`quoted`] comes to no number.
proof fn quoted_needs_a_digit(s: Scan, c: char, top: Frame)
    requires
        no_number(s),
        !digit(c),
    ensures
        no_number(quoted(s, c, top)),
{
    reveal(quoted);
    assert forall|n: Number| no_digit(n) implies !accepted(n) && !stopping(n) by {
        no_digit_is_no_number(n);
    }
    assert forall|c: char| !digit(c) implies no_digit(number_begun(c)) by {
        number_begun_without_digit(c);
    }
    assert forall|n: Number, c: char| no_digit(n) && !digit(c) implies no_digit(number_after(n, c)) by {
        number_after_without_digit(n, c);
    }
    assert forall|s: Scan, mode: Mode| no_number(s) implies no_number(moded(s, mode)) by {
        moded_needs_a_digit(s, mode);
    }
    assert forall|s: Scan, after: After| no_number(s) implies no_number(awaiting(s, after)) by {
        awaiting_needs_a_digit(s, after);
    }
    assert forall|s: Scan| no_number(s) implies no_number(halted(s)) by {
        halted_needs_a_digit(s);
    }
    assert forall|s: Scan, top: Frame| no_number(s) implies no_number(finished(s, top)) by {
        finished_needs_a_digit(s, top);
    }
    assert forall|s: Scan, pair: bool| no_number(s) implies no_number(hex_begun(s, pair)) by {
        hex_begun_needs_a_digit(s, pair);
    }
    assert forall|s: Scan, c: char| no_number(s) && !digit(c) implies no_number(hex_after(s, c)) by {
        hex_after_needs_a_digit(s, c);
    }
}

/// Without a digit [`tripled`] comes to no number.
proof fn tripled_needs_a_digit(s: Scan, c: char, top: Frame)
    requires
        no_number(s),
        !digit(c),
    ensures
        no_number(tripled(s, c, top)),
{
    reveal(tripled);
    assert forall|n: Number| no_digit(n) implies !accepted(n) && !stopping(n) by {
        no_digit_is_no_number(n);
    }
    assert forall|c: char| !digit(c) implies no_digit(number_begun(c)) by {
        number_begun_without_digit(c);
    }
    assert forall|n: Number, c: char| no_digit(n) && !digit(c) implies no_digit(number_after(n, c)) by {
        number_after_without_digit(n, c);
    }
    assert forall|s: Scan, quotes: u8| no_number(s) implies no_number(quoting(s, quotes)) by {
        quoting_needs_a_digit(s, quotes);
    }
    assert forall|s: Scan, top: Frame| no_number(s) implies no_number(finished(s, top)) by {
        finished_needs_a_digit(s, top);
    }
}

/// Without a digit [`stepped`] comes to no number.
proof fn stepped_needs_a_digit(s: Scan, c: char, top: Frame, under: Frame)
    requires
        no_number(s),
        !digit(c),
    ensures
        no_number(stepped(s, c, top, under).scan),
{
    reveal(stepped);
    assert forall|n: Number| no_digit(n) implies !accepted(n) && !stopping(n) by {
        no_digit_is_no_number(n);
    }
    assert forall|c: char| !digit(c) implies no_digit(number_begun(c)) by {
        number_begun_without_digit(c);
    }
    assert forall|n: Number, c: char| no_digit(n) && !digit(c) implies no_digit(number_after(n, c)) by {
        number_after_without_digit(n, c);
    }
    assert forall|s: Scan| no_number(s) implies no_number(kept(s).scan) by {
        kept_needs_a_digit(s);
    }
    assert forall|s: Scan, c: char| no_number(s) && !digit(c) implies no_number(key_after(s, c)) by {
        key_after_needs_a_digit(s, c);
    }
    assert forall|s: Scan, c: char, top: Frame, under: Frame| no_number(s) && !digit(c) implies no_number(spaced(s, c, top, under).scan) by {
        spaced_needs_a_digit(s, c, top, under);
    }
    assert forall|s: Scan, c: char, top: Frame, under: Frame| no_number(s) && !digit(c) implies no_number(token_after(s, c, top, under).scan) by {
        token_after_needs_a_digit(s, c, top, under);
    }
    assert forall|s: Scan, c: char, top: Frame, under: Frame| no_number(s) && !digit(c) implies no_number(token_slashed(s, c, top, under).scan) by {
        token_slashed_needs_a_digit(s, c, top, under);
    }
    assert forall|s: Scan, c: char, top: Frame, under: Frame| no_number(s) && !digit(c) implies no_number(commented(s, c, top, under).scan) by {
        commented_needs_a_digit(s, c, top, under);
    }
    assert forall|s: Scan, c: char, top: Frame| no_number(s) && !digit(c) implies no_number(quoted(s, c, top)) by {
        quoted_needs_a_digit(s, c, top);
    }
    assert forall|s: Scan, c: char, top: Frame| no_number(s) && !digit(c) implies no_number(tripled(s, c, top)) by {
        tripled_needs_a_digit(s, c, top);
    }
}

/// Without a digit [`begun`] comes to no number.
proof fn begun_needs_a_digit(after: After)
    ensures
        no_number(begun(after)),
{
    reveal(begun);
    assert forall|n: Number| no_digit(n) implies !accepted(n) && !stopping(n) by {
        no_digit_is_no_number(n);
    }
    assert forall|c: char| !digit(c) implies no_digit(number_begun(c)) by {
        number_begun_without_digit(c);
    }
    assert forall|n: Number, c: char| no_digit(n) && !digit(c) implies no_digit(number_after(n, c)) by {
        number_after_without_digit(n, c);
    }
}

/// Without a digit [`noted`] comes to no number.
proof fn noted_needs_a_digit(s: Scan, c: char)
    requires
        no_number(s),
        !digit(c),
    ensures
        no_number(noted(s, c)),
{
    reveal(noted);
    assert forall|n: Number| no_digit(n) implies !accepted(n) && !stopping(n) by {
        no_digit_is_no_number(n);
    }
    assert forall|c: char| !digit(c) implies no_digit(number_begun(c)) by {
        number_begun_without_digit(c);
    }
    assert forall|n: Number, c: char| no_digit(n) && !digit(c) implies no_digit(number_after(n, c)) by {
        number_after_without_digit(n, c);
    }
}

/// The reader goes on: it has neither given up nor come to a fault.
pub open spec fn live(s: Scan) -> bool {
    !s.halted && s.fault is None
}

/// The reader has not come to a comment that is never closed, and does not
/// stand in a comment between `/*` and `*/`.
pub open spec fn no_block(s: Scan) -> bool {
    s.fault != Some(Fault::CommentNotClosed) && (live(s) ==> s.mode != Mode::Block && s.mode
        != Mode::BlockStar)
}

/// The reader goes on behind a slash that may open a comment.
pub open spec fn armed(s: Scan) -> bool {
    live(s) && (s.mode == Mode::Slash || s.mode == Mode::TokenSlash)
}

/// The reader has not come to a comment that is never closed, and stands
/// neither in a comment between `/*` and `*/` nor behind a slash.
pub open spec fn calm(s: Scan) -> bool {
    no_block(s) && !armed(s)
}

/// [`moded`] brings the reader neither into a comment nor behind a slash.
proof fn moded_stays_calm(s: Scan, mode: Mode)
    requires
        calm(s),
        mode != Mode::Slash && mode != Mode::TokenSlash && mode != Mode::Block && mode != Mode::BlockStar,
    ensures
        calm(moded(s, mode)),
{
    reveal(moded);
}

/// [`awaiting`] brings the reader neither into a comment nor behind a slash.
proof fn awaiting_stays_calm(s: Scan, after: After)
    requires
        calm(s),
    ensures
        calm(awaiting(s, after)),
{
    reveal(awaiting);
}

/// [`halted`] brings the reader neither into a comment nor behind a slash.
proof fn halted_stays_calm(s: Scan)
    requires
        calm(s),
    ensures
        calm(halted(s)),
{
    reveal(halted);
}

/// [`failed`] brings the reader neither into a comment nor behind a slash.
proof fn failed_stays_calm(s: Scan, fault: Fault)
    requires
        calm(s),
        fault != Fault::CommentNotClosed,
    ensures
        calm(failed(s, fault)),
{
    reveal(failed);
}

/// [`quoting`] brings the reader neither into a comment nor behind a slash.
proof fn quoting_stays_calm(s: Scan, quotes: u8)
    requires
        calm(s),
    ensures
        calm(quoting(s, quotes)),
{
    reveal(quoting);
}

/// [`kept`] brings the reader neither into a comment nor behind a slash.
proof fn kept_stays_calm(s: Scan)
    requires
        calm(s),
    ensures
        calm(kept(s).scan),
{
    reveal(kept);
}

/// [`finished`] brings the reader neither into a comment nor behind a slash.
proof fn finished_stays_calm(s: Scan, top: Frame)
    requires
        calm(s),
    ensures
        calm(finished(s, top)),
{
    reveal(finished);
    assert forall|s: Scan, after: After| calm(s) implies calm(awaiting(s, after)) by {
        awaiting_stays_calm(s, after);
    }
}

/// [`token_with`] brings the reader neither into a comment nor behind a slash.
proof fn token_with_stays_calm(s: Scan, c: char)
    requires
        calm(s),
    ensures
        calm(token_with(s, c)),
{
    reveal(token_with);
    assert forall|s: Scan, mode: Mode| calm(s) && mode != Mode::Slash && mode != Mode::TokenSlash && mode != Mode::Block && mode != Mode::BlockStar implies calm(moded(s, mode)) by {
        moded_stays_calm(s, mode);
    }
    assert forall|s: Scan, fault: Fault| calm(s) && fault != Fault::CommentNotClosed implies calm(failed(s, fault)) by {
        failed_stays_calm(s, fault);
    }
    assert forall|s: Scan, quotes: u8| calm(s) implies calm(quoting(s, quotes)) by {
        quoting_stays_calm(s, quotes);
    }
}

/// [`token_begun`] brings the reader neither into a comment nor behind a slash.
proof fn token_begun_stays_calm(s: Scan, c: char)
    requires
        calm(s),
    ensures
        calm(token_begun(s, c)),
{
    reveal(token_begun);
}

/// [`key_after`] brings the reader neither into a comment nor behind a slash.
proof fn key_after_stays_calm(s: Scan, c: char)
    requires
        calm(s),
    ensures
        calm(key_after(s, c)),
{
    reveal(key_after);
    assert forall|s: Scan, after: After| calm(s) implies calm(awaiting(s, after)) by {
        awaiting_stays_calm(s, after);
    }
    assert forall|s: Scan| calm(s) implies calm(halted(s)) by {
        halted_stays_calm(s);
    }
}

/// [`value_begun`] brings the reader neither into a comment nor behind a slash.
proof fn value_begun_stays_calm(s: Scan, c: char)
    requires
        calm(s),
    ensures
        calm(value_begun(s, c).scan),
{
    reveal(value_begun);
    assert forall|s: Scan, after: After| calm(s) implies calm(awaiting(s, after)) by {
        awaiting_stays_calm(s, after);
    }
    assert forall|s: Scan| calm(s) implies calm(halted(s)) by {
        halted_stays_calm(s);
    }
    assert forall|s: Scan| calm(s) implies calm(kept(s).scan) by {
        kept_stays_calm(s);
    }
    assert forall|s: Scan, c: char| calm(s) implies calm(token_begun(s, c)) by {
        token_begun_stays_calm(s, c);
    }
}

/// [`item_begun`] brings the reader neither into a comment nor behind a slash.
proof fn item_begun_stays_calm(s: Scan, c: char, under: Frame)
    requires
        calm(s),
    ensures
        calm(item_begun(s, c, under).scan),
{
    reveal(item_begun);
    assert forall|s: Scan, top: Frame| calm(s) implies calm(finished(s, top)) by {
        finished_stays_calm(s, top);
    }
    assert forall|s: Scan, c: char| calm(s) implies calm(value_begun(s, c).scan) by {
        value_begun_stays_calm(s, c);
    }
}

/// [`key_begun`] brings the reader neither into a comment nor behind a slash.
proof fn key_begun_stays_calm(s: Scan, c: char, top: Frame, under: Frame)
    requires
        calm(s),
    ensures
        calm(key_begun(s, c, top, under).scan),
{
    reveal(key_begun);
    assert forall|s: Scan| calm(s) implies calm(halted(s)) by {
        halted_stays_calm(s);
    }
    assert forall|s: Scan| calm(s) implies calm(kept(s).scan) by {
        kept_stays_calm(s);
    }
    assert forall|s: Scan, top: Frame| calm(s) implies calm(finished(s, top)) by {
        finished_stays_calm(s, top);
    }
    assert forall|s: Scan, c: char| calm(s) implies calm(key_after(s, c)) by {
        key_after_stays_calm(s, c);
    }
}

/// [`resumed`] brings the reader neither into a comment nor behind a slash.
proof fn resumed_stays_calm(s: Scan, c: char, top: Frame, under: Frame)
    requires
        calm(s),
    ensures
        calm(resumed(s, c, top, under).scan),
{
    reveal(resumed);
    assert forall|s: Scan, after: After| calm(s) implies calm(awaiting(s, after)) by {
        awaiting_stays_calm(s, after);
    }
    assert forall|s: Scan| calm(s) implies calm(halted(s)) by {
        halted_stays_calm(s);
    }
    assert forall|s: Scan| calm(s) implies calm(kept(s).scan) by {
        kept_stays_calm(s);
    }
    assert forall|s: Scan, c: char| calm(s) implies calm(value_begun(s, c).scan) by {
        value_begun_stays_calm(s, c);
    }
    assert forall|s: Scan, c: char, under: Frame| calm(s) implies calm(item_begun(s, c, under).scan) by {
        item_begun_stays_calm(s, c, under);
    }
    assert forall|s: Scan, c: char, top: Frame, under: Frame| calm(s) implies calm(key_begun(s, c, top, under).scan) by {
        key_begun_stays_calm(s, c, top, under);
    }
}

/// [`hex_begun`] brings the reader neither into a comment nor behind a slash.
proof fn hex_begun_stays_calm(s: Scan, pair: bool)
    requires
        calm(s),
    ensures
        calm(hex_begun(s, pair)),
{
    reveal(hex_begun);
}

/// [`hex_after`] brings the reader neither into a comment nor behind a slash.
proof fn hex_after_stays_calm(s: Scan, c: char)
    requires
        calm(s),
    ensures
        calm(hex_after(s, c)),
{
    reveal(hex_after);
    assert forall|s: Scan, mode: Mode| calm(s) && mode != Mode::Slash && mode != Mode::TokenSlash && mode != Mode::Block && mode != Mode::BlockStar implies calm(moded(s, mode)) by {
        moded_stays_calm(s, mode);
    }
    assert forall|s: Scan| calm(s) implies calm(halted(s)) by {
        halted_stays_calm(s);
    }
}

/// [`quoted`] brings the reader neither into a comment nor behind a slash.
proof fn quoted_stays_calm(s: Scan, c: char, top: Frame)
    requires
        calm(s),
    ensures
        calm(quoted(s, c, top)),
{
    reveal(quoted);
    assert forall|s: Scan, mode: Mode| calm(s) && mode != Mode::Slash && mode != Mode::TokenSlash && mode != Mode::Block && mode != Mode::BlockStar implies calm(moded(s, mode)) by {
        moded_stays_calm(s, mode);
    }
    assert forall|s: Scan, after: After| calm(s) implies calm(awaiting(s, after)) by {
        awaiting_stays_calm(s, after);
    }
    assert forall|s: Scan| calm(s) implies calm(halted(s)) by {
        halted_stays_calm(s);
    }
    assert forall|s: Scan, top: Frame| calm(s) implies calm(finished(s, top)) by {
        finished_stays_calm(s, top);
    }
    assert forall|s: Scan, pair: bool| calm(s) implies calm(hex_begun(s, pair)) by {
        hex_begun_stays_calm(s, pair);
    }
    assert forall|s: Scan, c: char| calm(s) implies calm(hex_after(s, c)) by {
        hex_after_stays_calm(s, c);
    }
}

/// [`tripled`] brings the reader neither into a comment nor behind a slash.
proof fn tripled_stays_calm(s: Scan, c: char, top: Frame)
    requires
        calm(s),
    ensures
        calm(tripled(s, c, top)),
{
    reveal(tripled);
    assert forall|s: Scan, quotes: u8| calm(s) implies calm(quoting(s, quotes)) by {
        quoting_stays_calm(s, quotes);
    }
    assert forall|s: Scan, top: Frame| calm(s) implies calm(finished(s, top)) by {
        finished_stays_calm(s, top);
    }
}

/// [`begun`] brings the reader neither into a comment nor behind a slash.
proof fn begun_stays_calm(after: After)
    ensures
        calm(begun(after)),
{
    reveal(begun);
}

/// [`noted`] brings the reader neither into a comment nor behind a slash.
proof fn noted_stays_calm(s: Scan, c: char)
    requires
        calm(s),
    ensures
        calm(noted(s, c)),
{
    reveal(noted);
}

/// A pass of the reader comes to no other fault than the three.
proof fn walk_finds_a_place(text: Seq<char>, start: Walk, n: int)
    requires
        at_a_place(start.scan),
    ensures
        at_a_place(walked(text, start, n).scan),
    decreases n,
{
    if n > 0 {
        walk_finds_a_place(text, start, n - 1);
        let before = walked(text, start, n - 1);
        let top = top_of(before.stack);
        let under = under_of(before.stack);
        stepped_finds_a_place(before.scan, text[n - 1], top, under);
        noted_finds_a_place(stepped(before.scan, text[n - 1], top, under).scan, text[n - 1]);
    }
}

/// Between tokens a character brings the reader into no comment between
/// `/*` and `*/`, and behind a slash only if it is one.
proof fn spaced_needs_an_opener(s: Scan, c: char, top: Frame, under: Frame)
    requires
        calm(s),
    ensures
        no_block(spaced(s, c, top, under).scan),
        armed(spaced(s, c, top, under).scan) ==> c == '/',
{
    reveal(spaced);
    reveal(kept);
    reveal(moded);
    resumed_stays_calm(s, c, top, under);
}

/// In a value without quotes a character brings the reader into no comment
/// between `/*` and `*/`, and behind a slash only if it is one.
proof fn token_after_needs_an_opener(s: Scan, c: char, top: Frame, under: Frame)
    requires
        calm(s),
    ensures
        no_block(token_after(s, c, top, under).scan),
        armed(token_after(s, c, top, under).scan) ==> c == '/',
{
    reveal(token_after);
    reveal(kept);
    reveal(moded);
    failed_stays_calm(s, Fault::NumberTooGreat);
    finished_stays_calm(s, top);
    token_with_stays_calm(s, c);
    spaced_needs_an_opener(finished(s, top), c, top, under);
}

/// Behind a slash in a value without quotes a character that is no star
/// brings the reader into no comment between `/*` and `*/`, and behind a
/// slash only if it is one.
proof fn token_slashed_needs_an_opener(s: Scan, c: char, top: Frame, under: Frame)
    requires
        no_block(s),
        live(s),
        s.mode == Mode::TokenSlash,
        c != '*',
    ensures
        no_block(token_slashed(s, c, top, under).scan),
        armed(token_slashed(s, c, top, under).scan) ==> c == '/',
{
    reveal(token_slashed);
    reveal(kept);
    reveal(moded);
    reveal(failed);
    reveal(finished);
    reveal(awaiting);
    let token = moded(s, Mode::Token);
    token_with_stays_calm(token, '/');
    token_after_needs_an_opener(token_with(token, '/'), c, top, under);
}

/// In a comment, or behind a slash between tokens, a character that is no
/// star behind a slash brings the reader into no comment between `/*` and
/// `*/`, and behind a slash only if it is one.
proof fn commented_needs_an_opener(s: Scan, c: char, top: Frame, under: Frame)
    requires
        no_block(s),
        live(s),
        armed(s) ==> c != '*',
        s.mode == Mode::Line || s.mode == Mode::Slash || s.mode == Mode::Block || s.mode
            == Mode::BlockStar,
    ensures
        no_block(commented(s, c, top, under).scan),
        armed(commented(s, c, top, under).scan) ==> c == '/',
{
    reveal(commented);
    reveal(kept);
    reveal(moded);
    spaced_needs_an_opener(moded(s, Mode::Space), c, top, under);
}

/// Where no star follows a slash, a character brings the reader into no
/// comment between `/*` and `*/`, and behind a slash only if it is one.
proof fn stepped_needs_an_opener(s: Scan, c: char, top: Frame, under: Frame)
    requires
        no_block(s),
        armed(s) ==> c != '*',
    ensures
        no_block(stepped(s, c, top, under).scan),
        armed(stepped(s, c, top, under).scan) ==> c == '/',
{
    reveal(stepped);
    reveal(kept);
    if live(s) {
        match s.mode {
            Mode::Space => spaced_needs_an_opener(s, c, top, under),
            Mode::Line | Mode::Slash | Mode::Block | Mode::BlockStar => commented_needs_an_opener(
                s,
                c,
                top,
                under,
            ),
            Mode::Key => key_after_stays_calm(s, c),
            Mode::Token => token_after_needs_an_opener(s, c, top, under),
            Mode::TokenSlash => token_slashed_needs_an_opener(s, c, top, under),
            Mode::Multi => tripled_stays_calm(s, c, top),
            _ => quoted_stays_calm(s, c, top),
        }
    }
}

/// A pass of the reader over a text in which no star follows a slash comes
/// to no comment between `/*` and `*/`.
proof fn walk_needs_an_opener(text: Seq<char>, start: Walk, n: int)
    requires
        calm(start.scan),
        0 <= n <= text.len(),
        forall|i: int| 0 <= i < text.len() - 1 && #[trigger] text[i] == '/' ==> text[i + 1] != '*',
    ensures
        no_block(walked(text, start, n).scan),
        armed(walked(text, start, n).scan) ==> n > 0 && text[n - 1] == '/',
    decreases n,
{
    if n > 0 {
        walk_needs_an_opener(text, start, n - 1);
        let before = walked(text, start, n - 1);
        let top = top_of(before.stack);
        let under = under_of(before.stack);
        stepped_needs_an_opener(before.scan, text[n - 1], top, under);
        reveal(noted);
    }
}

/// A pass of the reader over a text without a quote comes to no three
/// quotes.
proof fn walk_needs_a_quote(text: Seq<char>, start: Walk, n: int)
    requires
        no_quotes(start.scan),
        0 <= n <= text.len(),
        forall|i: int| 0 <= i < text.len() ==> text[i] != '\'',
    ensures
        no_quotes(walked(text, start, n).scan),
    decreases n,
{
    if n > 0 {
        walk_needs_a_quote(text, start, n - 1);
        let before = walked(text, start, n - 1);
        let top = top_of(before.stack);
        let under = under_of(before.stack);
        stepped_needs_a_quote(before.scan, text[n - 1], top, under);
        noted_needs_a_quote(stepped(before.scan, text[n - 1], top, under).scan, text[n - 1]);
    }
}

/// A pass of the reader over a text without a digit comes to no number.
proof fn walk_needs_a_digit(text: Seq<char>, start: Walk, n: int)
    requires
        no_number(start.scan),
        0 <= n <= text.len(),
        forall|i: int| 0 <= i < text.len() ==> !digit(text[i]),
    ensures
        no_number(walked(text, start, n).scan),
    decreases n,
{
    if n > 0 {
        walk_needs_a_digit(text, start, n - 1);
        let before = walked(text, start, n - 1);
        let top = top_of(before.stack);
        let under = under_of(before.stack);
        stepped_needs_a_digit(before.scan, text[n - 1], top, under);
        noted_needs_a_digit(stepped(before.scan, text[n - 1], top, under).scan, text[n - 1]);
    }
}

/// A text is turned down for one of three faults and no other: a whole
/// number too great, a comment that is not closed, or three quotes that
/// begin a line.
pub proof fn refusal_names_a_place(text: Seq<char>)
    ensures
        a_place(refusal(text)),
{
    reveal(ended);
    begun_finds_a_place(After::Start);
    begun_finds_a_place(After::Value);
    walk_finds_a_place(text, first_pass(), text.len() as int);
    walk_finds_a_place(text, second_pass(), text.len() as int);
}

/// A text in which no star follows a slash is never turned down for a
/// comment that is not closed.
pub proof fn comment_needs_an_opener(text: Seq<char>)
    requires
        forall|i: int| 0 <= i < text.len() - 1 && #[trigger] text[i] == '/' ==> text[i + 1] != '*',
    ensures
        refusal(text) != Some(Fault::CommentNotClosed),
{
    reveal(ended);
    begun_stays_calm(After::Start);
    begun_stays_calm(After::Value);
    walk_needs_an_opener(text, first_pass(), text.len() as int);
    walk_needs_an_opener(text, second_pass(), text.len() as int);
}

/// A text without a quote is never turned down for three quotes that begin
/// a line.
pub proof fn quotes_need_a_quote(text: Seq<char>)
    requires
        forall|i: int| 0 <= i < text.len() ==> text[i] != '\'',
    ensures
        refusal(text) != Some(Fault::QuotesLeadLine),
{
    reveal(ended);
    begun_needs_a_quote(After::Start);
    begun_needs_a_quote(After::Value);
    walk_needs_a_quote(text, first_pass(), text.len() as int);
    walk_needs_a_quote(text, second_pass(), text.len() as int);
}

/// A text without a digit is never turned down for a number too great.
pub proof fn number_needs_a_digit(text: Seq<char>)
    requires
        forall|i: int| 0 <= i < text.len() ==> !digit(text[i]),
    ensures
        refusal(text) != Some(Fault::NumberTooGreat),
{
    reveal(ended);
    begun_needs_a_digit(After::Start);
    begun_needs_a_digit(After::Value);
    walk_needs_a_digit(text, first_pass(), text.len() as int);
    walk_needs_a_digit(text, second_pass(), text.len() as int);
    let first = walked(text, first_pass(), text.len() as int).scan;
    let second = walked(text, second_pass(), text.len() as int).scan;
    no_digit_is_no_number(first.number);
    no_digit_is_no_number(second.number);
    number_after_without_digit(first.number, '/');
    number_after_without_digit(second.number, '/');
    no_digit_is_no_number(number_after(first.number, '/'));
    no_digit_is_no_number(number_after(second.number, '/'));
}

/// A text with no quote and no digit in it, and in which no star follows a
/// slash, is handed to `serde_hjson`.
pub proof fn plain_text_is_readable(text: Seq<char>)
    requires
        forall|i: int| 0 <= i < text.len() ==> text[i] != '\'' && !digit(text[i]),
        forall|i: int| 0 <= i < text.len() - 1 && #[trigger] text[i] == '/' ==> text[i + 1] != '*',
    ensures
        readable(text),
{
    refusal_names_a_place(text);
    comment_needs_an_opener(text);
    quotes_need_a_quote(text);
    number_needs_a_digit(text);
}

} // verus!
