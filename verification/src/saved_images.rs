use vstd::prelude::*;

verus! {

/// What the `regex` crate finds for `pattern` in `haystack`: the text of
/// the first capture group of the leftmost match, `None` when the pattern
/// does not match (or does not compile, or the group takes no part).
pub uninterp spec fn regex_first_group(pattern: Seq<char>, haystack: Seq<char>) -> Option<Seq<char>>;


/// `text` consists of the ASCII digits 0 to 9 only.
pub open spec fn all_ascii_digits(text: Seq<char>) -> bool {
    forall|i: int| 0 <= i < text.len() ==> '0' <= #[trigger] text[i] <= '9'
}

/// The number that the decimal digits `text` write.
pub open spec fn decimal_value(text: Seq<char>) -> int
    decreases text.len(),
{
    if text.len() == 0 {
        0
    } else {
        decimal_value(text.drop_last()) * 10 + (text.last() as int - '0' as int)
    }
}

/// `text` without one leading `+`, if it has one.
pub open spec fn unsigned_digits(text: Seq<char>) -> Seq<char> {
    if text.len() > 0 && text[0] == '+' {
        text.drop_first()
    } else {
        text
    }
}

/// The `u32` that `text` writes in decimal: an optional `+` followed by at
/// least one of the digits 0 to 9, with a value that fits in a `u32`.
/// `None` for anything else.
pub open spec fn parsed_u32(text: Seq<char>) -> Option<u32> {
    let digits = unsigned_digits(text);
    if digits.len() > 0 && all_ascii_digits(digits) && decimal_value(digits) <= u32::MAX {
        Some(decimal_value(digits) as u32)
    } else {
        None
    }
}

proof fn lemma_decimal_value_nonnegative(text: Seq<char>)
    requires
        all_ascii_digits(text),
    ensures
        decimal_value(text) >= 0,
    decreases text.len(),
{
    if text.len() > 0 {
        lemma_decimal_value_nonnegative(text.drop_last());
    }
}

/// A prefix of a run of digits writes no greater number than the run.
proof fn lemma_decimal_value_prefix(text: Seq<char>, k: int)
    requires
        all_ascii_digits(text),
        0 <= k <= text.len(),
    ensures
        decimal_value(text.take(k)) <= decimal_value(text),
    decreases text.len(),
{
    if k == text.len() {
        assert(text.take(k) =~= text);
    } else {
        let rest = text.drop_last();
        assert(rest.take(k) =~= text.take(k));
        lemma_decimal_value_prefix(rest, k);
        lemma_decimal_value_nonnegative(rest);
    }
}

/// Runs `Regex::new(pattern)` and `Regex::captures` on `haystack`, and
/// returns the text of capture group 1. Claimed of it: the result is
/// `regex_first_group(pattern, haystack)`; nothing is claimed about what
/// that is.
#[verifier::external_body]
fn first_group(pattern: &str, haystack: &str) -> (r: Option<String>)
    ensures
        match r {
            Some(s) => regex_first_group(pattern@, haystack@) == Some(s@),
            None => regex_first_group(pattern@, haystack@) is None,
        },
{
    let re = regex::Regex::new(pattern).ok()?;
    let caps = re.captures(haystack)?;
    match caps.get(1) {
        Some(m) => Some(m.as_str().to_owned()),
        None => None,
    }
}

/// Reads `text` as a `u32` in decimal, as `str::parse::<u32>` does.
fn parse_u32(text: &str) -> (r: Option<u32>)
    ensures
        r == parsed_u32(text@),
{
    let len = text.unicode_len();
    let start: usize = if len > 0 && text.get_char(0) == '+' {
        1
    } else {
        0
    };
    let ghost digits = unsigned_digits(text@);
    assert(digits =~= text@.subrange(start as int, len as int));
    if start == len {
        return None;
    }
    let mut value: u64 = 0;
    let mut i: usize = start;
    while i < len
        invariant
            start <= i <= len,
            len == text@.len(),
            start < len,
            digits == unsigned_digits(text@),
            digits == text@.subrange(start as int, len as int),
            all_ascii_digits(digits.take(i - start)),
            value == decimal_value(digits.take(i - start)),
            value <= u32::MAX,
        decreases len - i,
    {
        let c = text.get_char(i);
        if !('0' <= c && c <= '9') {
            assert(digits[i - start] == c);
            return None;
        }
        let d: u64 = (c as u32 - '0' as u32) as u64;
        let ghost before = digits.take(i - start);
        let ghost after = digits.take(i - start + 1);
        assert(after.drop_last() =~= before);
        assert(after.last() == c);
        value = value * 10 + d;
        i = i + 1;
        assert(all_ascii_digits(after));
        if value > u32::MAX as u64 {
            proof {
                if all_ascii_digits(digits) {
                    lemma_decimal_value_prefix(digits, i - start);
                }
            }
            return None;
        }
    }
    assert(digits.take(len - start) =~= digits);
    Some(value as u32)
}

/// The pattern that picks the number out of a saved image's file name.
pub open spec fn image_pattern() -> Seq<char> {
    "_(\\d+)\\.jpe?g"@
}

/// What the file name `name` says of the image's number: `None` when the
/// name does not look like a numbered image, `Some(None)` when the number
/// cannot be read as a `u32`, `Some(Some(n))` for the number `n`.
pub open spec fn image_number(name: Seq<char>) -> Option<Option<u32>> {
    match regex_first_group(image_pattern(), name) {
        None => None,
        Some(digits) => Some(parsed_u32(digits)),
    }
}

/// The greatest image number among `names`, 0 when there is none.
pub open spec fn greatest_image_number(names: Seq<Seq<char>>) -> u32
    decreases names.len(),
{
    if names.len() == 0 {
        0
    } else {
        let rest = greatest_image_number(names.drop_last());
        match image_number(names.last()) {
            Some(Some(n)) => if n > rest { n } else { rest },
            _ => rest,
        }
    }
}

/// Every numbered name of `names` carries a readable number.
pub open spec fn numbers_readable(names: Seq<Seq<char>>) -> bool {
    forall|i: int| 0 <= i < names.len() ==> #[trigger] image_number(names[i]) != Some(None::<u32>)
}

proof fn lemma_greatest_bounds(names: Seq<Seq<char>>)
    ensures
        forall|i: int|
            0 <= i < names.len() ==> (#[trigger] image_number(names[i]) matches Some(Some(n))
                ==> n <= greatest_image_number(names)),
    decreases names.len(),
{
    if names.len() > 0 {
        let d = names.drop_last();
        lemma_greatest_bounds(d);
        assert forall|i: int|
            0 <= i < names.len() implies (#[trigger] image_number(names[i]) matches Some(Some(n))
                ==> n <= greatest_image_number(names)) by {
            if i < names.len() - 1 {
                assert(names[i] == d[i]);
            }
        }
    }
}

/// A saved image never takes the number of an existing image: the next
/// number is greater than the number of every numbered file name.
pub proof fn law_next_image_is_new(names: Seq<Seq<char>>)
    requires
        numbers_readable(names),
        greatest_image_number(names) < u32::MAX,
    ensures
        forall|i: int|
            0 <= i < names.len() ==> (#[trigger] image_number(names[i]) matches Some(Some(n)) ==> n
                < greatest_image_number(names) + 1),
{
    lemma_greatest_bounds(names);
}

/// The views of a list of file names.
pub open spec fn name_texts(names: Seq<String>) -> Seq<Seq<char>> {
    names.map_values(|n: String| n@)
}

/// The number of the image called `name`, as its name reads.
pub fn image_number_of(name: &String) -> (r: Option<Option<u32>>)
    ensures
        r == image_number(name@),
{
    let pattern = "_(\\d+)\\.jpe?g";
    proof {
        reveal_strlit("_(\\d+)\\.jpe?g");
    }
    match first_group(pattern, name.as_str()) {
        None => None,
        Some(digits) => Some(parse_u32(digits.as_str())),
    }
}

/// The greatest image number among the file names `names` (0 when none
/// of them is a numbered image). Every numbered name has to carry a number
/// that fits in a `u32`.
pub fn greatest_image_index(names: &Vec<String>) -> (r: u32)
    requires
        numbers_readable(name_texts(names@)),
    ensures
        r == greatest_image_number(name_texts(names@)),
{
    let ghost all = name_texts(names@);
    let mut best: u32 = 0;
    let mut i: usize = 0;
    while i < names.len()
        invariant
            i <= names@.len(),
            all == name_texts(names@),
            numbers_readable(all),
            best == greatest_image_number(all.take(i as int)),
        decreases names@.len() - i,
    {
        let number = image_number_of(&names[i]);
        proof {
            assert(all.take(i + 1).drop_last() =~= all.take(i as int));
            assert(all.take(i + 1).last() == all[i as int]);
            assert(image_number(all[i as int]) != Some(None::<u32>));
        }
        match number {
            Some(Some(n)) => {
                if n > best {
                    best = n;
                }
            },
            _ => {},
        }
        i = i + 1;
    }
    assert(all.take(all.len() as int) =~= all);
    best
}

/// The number of the next image to save among the file names `names`:
/// one more than the greatest image number there. `None` when a numbered
/// name carries a number that does not fit in a `u32`, or when the next
/// number would not fit.
pub fn next_image_index(names: &Vec<String>) -> (r: Option<u32>)
    ensures
        r == if numbers_readable(name_texts(names@)) && greatest_image_number(name_texts(names@))
            < u32::MAX {
            Some((greatest_image_number(name_texts(names@)) + 1) as u32)
        } else {
            None::<u32>
        },
{
    let ghost all = name_texts(names@);
    let mut i: usize = 0;
    while i < names.len()
        invariant
            i <= names@.len(),
            all == name_texts(names@),
            forall|j: int| 0 <= j < i ==> #[trigger] image_number(all[j]) != Some(None::<u32>),
        decreases names@.len() - i,
    {
        match image_number_of(&names[i]) {
            Some(None) => {
                assert(all[i as int] == names@[i as int]@);
                assert(!numbers_readable(all));
                return None;
            },
            _ => {},
        }
        assert(all[i as int] == names@[i as int]@);
        i = i + 1;
    }
    assert(numbers_readable(all));
    let greatest = greatest_image_index(names);
    greatest.checked_add(1)
}

} // verus!
