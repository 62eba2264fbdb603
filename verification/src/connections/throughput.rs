//! Reading the total throughput out of the lines of a result file.

use vstd::prelude::*;
use vstd::string::*;
use crate::error::{BenchError, ErrorView};
use crate::text::{
    decimal, find, index_of, is_digit, lemma_decimal_digits, lemma_index_of_is, occurs_at,
    parse_digits, parse_number, to_chars,
};

verus! {

/// The two words that frame the throughput in a result file. They belong to
/// the benchmarked system and come from its settings.
#[derive(Debug)]
pub struct ResultFormat {
    /// The word before the number.
    pub marker: String,
    /// The word behind the number.
    pub delimiter: String,
}

impl Clone for ResultFormat {
    fn clone(&self) -> (copy: Self)
        ensures
            copy == *self,
    {
        ResultFormat { marker: self.marker.clone(), delimiter: self.delimiter.clone() }
    }
}

pub open spec fn all_blanks(s: Seq<char>) -> bool {
    forall|i: int| 0 <= i < s.len() ==> #[trigger] s[i] == ' '
}

/// How many blanks a text begins with.
pub open spec fn leading_blanks(s: Seq<char>) -> nat
    decreases s.len(),
{
    if s.len() > 0 && s[0] == ' ' {
        1 + leading_blanks(s.skip(1))
    } else {
        0
    }
}

/// How many blanks a text ends with.
pub open spec fn trailing_blanks(s: Seq<char>) -> nat
    decreases s.len(),
{
    if s.len() > 0 && s.last() == ' ' {
        1 + trailing_blanks(s.drop_last())
    } else {
        0
    }
}

/// A text without the blanks at its two ends.
pub open spec fn trimmed(s: Seq<char>) -> Seq<char> {
    let rest = s.skip(leading_blanks(s) as int);
    rest.take(rest.len() - trailing_blanks(rest))
}

/// What stands between the first marker and the first delimiter behind it,
/// if both are there.
pub open spec fn framed(text: Seq<char>, marker: Seq<char>, delimiter: Seq<char>) -> Option<
    Seq<char>,
> {
    match index_of(text, marker, 0) {
        None => None,
        Some(m) => match index_of(text, delimiter, m + marker.len()) {
            None => None,
            Some(d) => Some(text.subrange(m + marker.len(), d)),
        },
    }
}

/// What is said of a text that lacks the marker or the delimiter.
pub open spec fn cannot_parse(text: Seq<char>) -> ErrorView {
    ErrorView::Message("cannot parse result file: "@ + text)
}

/// The throughput that a text reports: the digits between the first marker
/// and the first delimiter behind it, blanks around them left aside. A text
/// without the two words cannot be parsed; one with anything but a number of
/// 32 bits between them fails with what stands there.
pub open spec fn throughput_of(text: Seq<char>, marker: Seq<char>, delimiter: Seq<char>) -> Result<
    nat,
    ErrorView,
> {
    match framed(text, marker, delimiter) {
        None => Err(cannot_parse(text)),
        Some(between) => match parse_digits(trimmed(between), u32::MAX as nat) {
            Some(n) => Ok(n),
            None => Err(ErrorView::ParseIntError(trimmed(between))),
        },
    }
}

/// A throughput, or the failure to read one, as plain values.
pub open spec fn throughput_view(read: Result<u32, BenchError>) -> Result<nat, ErrorView> {
    match read {
        Ok(n) => Ok(n as nat),
        Err(error) => Err(error@),
    }
}

proof fn lemma_leading_blanks(s: Seq<char>, k: int)
    requires
        0 <= k <= s.len(),
        forall|i: int| 0 <= i < k ==> s[i] == ' ',
        k < s.len() ==> s[k] != ' ',
    ensures
        leading_blanks(s) == k,
    decreases k,
{
    if k > 0 {
        let rest = s.skip(1);
        assert(forall|i: int| 0 <= i < k - 1 ==> rest[i] == s[i + 1]);
        lemma_leading_blanks(rest, k - 1);
    }
}

proof fn lemma_trailing_blanks(s: Seq<char>, k: int)
    requires
        0 <= k <= s.len(),
        forall|i: int| s.len() - k <= i < s.len() ==> s[i] == ' ',
        k < s.len() ==> s[s.len() - k - 1] != ' ',
    ensures
        trailing_blanks(s) == k,
    decreases k,
{
    if k > 0 {
        let rest = s.drop_last();
        assert(forall|i: int| 0 <= i < rest.len() ==> rest[i] == s[i]);
        lemma_trailing_blanks(rest, k - 1);
    }
}

/// A text that neither begins nor ends with a blank, with blanks put around
/// it, trims back to itself.
pub proof fn lemma_trimmed_padding(before: Seq<char>, core: Seq<char>, after: Seq<char>)
    requires
        all_blanks(before),
        all_blanks(after),
        core.len() > 0,
        core[0] != ' ',
        core.last() != ' ',
    ensures
        trimmed(before + core + after) == core,
{
    let s = before + core + after;
    lemma_leading_blanks(s, before.len() as int);
    let rest = s.skip(before.len() as int);
    assert(rest =~= core + after);
    lemma_trailing_blanks(rest, after.len() as int);
    assert(rest.take(rest.len() - after.len()) =~= core);
}

/// Writing and reading agree: a text that holds the marker, a number of 32
/// bits in decimal and the delimiter, with any blanks between them, reports
/// that number. The marker must not stand in the text before the place where
/// it was written, and the delimiter must begin with something that is
/// neither a digit nor a blank.
pub proof fn lemma_throughput_round_trip(
    prefix: Seq<char>,
    marker: Seq<char>,
    before: Seq<char>,
    n: nat,
    after: Seq<char>,
    delimiter: Seq<char>,
    suffix: Seq<char>,
)
    requires
        n <= u32::MAX,
        all_blanks(before),
        all_blanks(after),
        delimiter.len() > 0,
        !is_digit(delimiter[0]),
        delimiter[0] != ' ',
        forall|j: int|
            0 <= j < prefix.len() ==> !occurs_at(
                prefix + marker + before + decimal(n) + after + delimiter + suffix,
                marker,
                j,
            ),
    ensures
        throughput_of(
            prefix + marker + before + decimal(n) + after + delimiter + suffix,
            marker,
            delimiter,
        ) == Ok::<nat, ErrorView>(n),
{
    let digits = decimal(n);
    let text = prefix + marker + before + digits + after + delimiter + suffix;
    lemma_decimal_digits(n);
    let m = prefix.len() as int;
    let from = m + marker.len();
    let d = from + before.len() + digits.len() + after.len();
    assert(text.subrange(m, m + marker.len()) =~= marker);
    lemma_index_of_is(text, marker, 0, m);
    assert(text.subrange(d, d + delimiter.len()) =~= delimiter);
    assert forall|j: int| from <= j < d implies !occurs_at(text, delimiter, j) by {
        if occurs_at(text, delimiter, j) {
            assert(text.subrange(j, j + delimiter.len())[0] == delimiter[0]);
            assert(text[j] == delimiter[0]);
            if j < from + before.len() {
                assert(text[j] == before[j - from]);
            } else if j < from + before.len() + digits.len() {
                assert(text[j] == digits[j - from - before.len()]);
            } else {
                assert(text[j] == after[j - from - before.len() - digits.len()]);
            }
        }
    }
    lemma_index_of_is(text, delimiter, from, d);
    let between = text.subrange(from, d);
    assert(between =~= before + digits + after);
    assert(is_digit(digits[0]));
    assert(is_digit(digits.last()));
    lemma_trimmed_padding(before, digits, after);
}

/// A text with the marker and no delimiter behind it reports no throughput:
/// it cannot be parsed.
pub proof fn lemma_throughput_needs_delimiter(
    text: Seq<char>,
    marker: Seq<char>,
    delimiter: Seq<char>,
)
    requires
        index_of(text, marker, 0) matches Some(m) && index_of(text, delimiter, m + marker.len())
            is None,
    ensures
        throughput_of(text, marker, delimiter) == Err::<nat, ErrorView>(cannot_parse(text)),
{
}

impl ResultFormat {
    pub fn new(marker: &str, delimiter: &str) -> (format: ResultFormat)
        ensures
            format.marker@ == marker@,
            format.delimiter@ == delimiter@,
    {
        ResultFormat { marker: String::from_str(marker), delimiter: String::from_str(delimiter) }
    }

    /// Reads the throughput out of the lines that a search for the marker in
    /// a result file gave.
    pub fn throughput(&self, text: &str) -> (read: Result<u32, BenchError>)
        ensures
            throughput_view(read) == throughput_of(text@, self.marker@, self.delimiter@),
    {
        let chars = to_chars(text);
        let marker = to_chars(self.marker.as_str());
        let delimiter = to_chars(self.delimiter.as_str());
        let m = match find(&chars, &marker, 0) {
            Some(m) => m,
            None => { return Err(cannot_parse_error(text)); },
        };
        let width = chars.len();
        proof {
            crate::text::lemma_index_of(chars@, marker@, 0);
            assert(m + marker@.len() <= width);
        }
        let from: usize = m + marker.len();
        let d = match find(&chars, &delimiter, from) {
            Some(d) => d,
            None => { return Err(cannot_parse_error(text)); },
        };
        proof {
            crate::text::lemma_index_of(chars@, delimiter@, from as int);
        }
        let ghost between = chars@.subrange(from as int, d as int);
        let mut start: usize = from;
        while start < d && chars[start] == ' '
            invariant
                from <= start <= d <= chars@.len(),
                between == chars@.subrange(from as int, d as int),
                forall|i: int| 0 <= i < start - from ==> between[i] == ' ',
            decreases d - start,
        {
            start += 1;
        }
        proof {
            lemma_leading_blanks(between, start - from);
        }
        let ghost rest = between.skip(start - from);
        let mut end: usize = d;
        while end > start && chars[end - 1] == ' '
            invariant
                from <= start <= end <= d <= chars@.len(),
                between == chars@.subrange(from as int, d as int),
                rest == between.skip(start - from),
                forall|i: int| end - start <= i < rest.len() ==> rest[i] == ' ',
            decreases end - start,
        {
            end -= 1;
        }
        proof {
            lemma_trailing_blanks(rest, d - end);
            assert(trimmed(between) =~= chars@.subrange(start as int, end as int));
        }
        match parse_number(&chars, start, end, u32::MAX as u64) {
            Some(n) => Ok(n as u32),
            None => {
                let piece = text.substring_char(start, end);
                Err(BenchError::ParseIntError(String::from_str(piece)))
            },
        }
    }
}

fn cannot_parse_error(text: &str) -> (error: BenchError)
    ensures
        error@ == cannot_parse(text@),
{
    let mut message = String::from_str("cannot parse result file: ");
    message.append(text);
    BenchError::Message(message)
}

} // verus!
