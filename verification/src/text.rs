//! Text that the rest of the library builds: decimal numbers, joined lists,
//! prefix and suffix tests, trimming.

use vstd::prelude::*;

verus! {

/// The decimal digit with value `d`.
pub open spec fn digit(d: int) -> char {
    "0123456789"@[d]
}

/// `n` in decimal, without leading zeros.
pub open spec fn decimal(n: nat) -> Seq<char>
    decreases n,
{
    if n < 10 {
        seq![digit(n as int)]
    } else {
        decimal(n / 10).push(digit((n % 10) as int))
    }
}

/// Writes `n` in decimal.
pub fn decimal_text(n: u64) -> (text: String)
    ensures
        text@ == decimal(n as nat),
    decreases n,
{
    let d: usize = (n % 10) as usize;
    proof {
        reveal_strlit("0123456789");
    }
    let last = "0123456789".substring_ascii(d, d + 1);
    assert(last@ == seq![digit(d as int)]);
    if n < 10 {
        last.to_string()
    } else {
        let mut text = decimal_text(n / 10);
        text.append(last);
        assert(text@ == decimal((n / 10) as nat).push(digit(d as int)));
        text
    }
}

/// Decimal text is read back digit by digit: the value of its digits, each ten
/// times the next, is `n`. It has no leading zero unless it is `0`.
pub proof fn law_decimal(n: nat)
    ensures
        decimal(n).fold_left(0int, |value: int, c: char| 10 * value + (c as int - '0' as int)) == n,
        decimal(n).len() > 0,
        forall|i: int| 0 <= i < decimal(n).len() ==> '0' <= #[trigger] decimal(n)[i] <= '9',
        decimal(n).len() > 1 ==> decimal(n)[0] != '0',
        n > 0 ==> decimal(n)[0] != '0',
    decreases n,
{
    reveal_strlit("0123456789");
    let read = |value: int, c: char| 10 * value + (c as int - '0' as int);
    let last = digit((n % 10) as int);
    assert(last as int - '0' as int == n % 10);
    if n < 10 {
        assert(decimal(n).drop_last() =~= Seq::empty());
        assert(decimal(n).drop_last().fold_left(0int, read) == 0);
    } else {
        law_decimal(n / 10);
        assert(decimal(n).drop_last() =~= decimal(n / 10));
        assert forall|i: int| 0 <= i < decimal(n).len() implies '0' <= #[trigger] decimal(n)[i]
            <= '9' by {
            if i < decimal(n / 10).len() {
                assert(decimal(n)[i] == decimal(n / 10)[i]);
            }
        }
        assert(decimal(n)[0] == decimal(n / 10)[0]);
    }
}

/// `parts` one after the other, with `separator` between neighbours.
pub open spec fn joined(parts: Seq<Seq<char>>, separator: Seq<char>) -> Seq<char>
    decreases parts.len(),
{
    if parts.len() == 0 {
        Seq::empty()
    } else if parts.len() == 1 {
        parts[0]
    } else {
        joined(parts.drop_last(), separator) + separator + parts.last()
    }
}

/// With one more separator at its end, joined text is the parts one after the
/// other, each followed by the separator.
pub proof fn law_joined(parts: Seq<Seq<char>>, separator: Seq<char>)
    ensures
        parts.len() == 0 ==> joined(parts, separator).len() == 0,
        parts.len() > 0 ==> joined(parts, separator) + separator == parts.map_values(
            |part: Seq<char>| part + separator,
        ).flatten(),
    decreases parts.len(),
{
    let ended = |part: Seq<char>| part + separator;
    if parts.len() == 1 {
        let one = parts.map_values(ended);
        one.lemma_flatten_one_element();
        assert(one.first() == parts[0] + separator);
    } else if parts.len() > 1 {
        let front = parts.drop_last();
        law_joined(front, separator);
        assert(parts.map_values(ended) =~= front.map_values(ended).push(ended(parts.last())));
        front.map_values(ended).lemma_flatten_push(ended(parts.last()));
        assert(joined(parts, separator) + separator =~= (joined(front, separator) + separator) + (
        parts.last() + separator));
    }
}

/// Joins the first `count` of `parts` with `separator`.
pub fn join_first(parts: &[String], count: usize, separator: &str) -> (text: String)
    requires
        count <= parts@.len(),
    ensures
        text@ == joined(parts.deep_view().take(count as int), separator@),
{
    let mut text = String::new();
    let mut i: usize = 0;
    assert(parts.deep_view().take(0) =~= Seq::empty());
    while i < count
        invariant
            i <= count <= parts@.len(),
            text@ == joined(parts.deep_view().take(i as int), separator@),
        decreases count - i,
    {
        let ghost before = parts.deep_view().take(i as int);
        let ghost after = parts.deep_view().take(i + 1);
        assert(after.drop_last() =~= before);
        assert(after.last() == parts@[i as int]@);
        if i > 0 {
            text.append(separator);
        }
        text.append(parts[i].as_str());
        assert(text@ =~= joined(after, separator@));
        i += 1;
    }
    text
}

/// Joins all of `parts` with `separator`.
pub fn join_all(parts: &[String], separator: &str) -> (text: String)
    ensures
        text@ == joined(parts.deep_view(), separator@),
{
    assert(parts.deep_view().take(parts@.len() as int) =~= parts.deep_view());
    join_first(parts, parts.len(), separator)
}

/// Whether `text` starts with `prefix`.
pub open spec fn has_prefix(text: Seq<char>, prefix: Seq<char>) -> bool {
    prefix.len() <= text.len() && text.take(prefix.len() as int) == prefix
}

/// Whether `text` ends with `suffix`.
pub open spec fn has_suffix(text: Seq<char>, suffix: Seq<char>) -> bool {
    suffix.len() <= text.len() && text.skip(text.len() - suffix.len()) == suffix
}

/// A text starts with its prefixes and ends with its suffixes.
pub proof fn law_prefix_and_suffix(text: Seq<char>, part: Seq<char>)
    ensures
        has_prefix(text, part) == part.is_prefix_of(text),
        has_suffix(text, part) == part.is_suffix_of(text),
        forall|rest: Seq<char>| has_prefix(#[trigger] (part + rest), part),
        forall|rest: Seq<char>| has_suffix(#[trigger] (rest + part), part),
{
    assert(part.len() <= text.len() ==> text.take(part.len() as int) == text.subrange(
        0,
        part.len() as int,
    ));
    assert(part.len() <= text.len() ==> text.skip(text.len() - part.len()) =~= text.subrange(
        text.len() - part.len(),
        text.len() as int,
    ));
    assert forall|rest: Seq<char>| has_prefix(#[trigger] (part + rest), part) by {
        assert((part + rest).take(part.len() as int) =~= part);
    }
    assert forall|rest: Seq<char>| has_suffix(#[trigger] (rest + part), part) by {
        assert((rest + part).skip(rest.len() as int) =~= part);
    }
}

/// Tests whether `text` starts with `prefix`.
pub fn starts_with(text: &str, prefix: &str) -> (yes: bool)
    ensures
        yes == has_prefix(text@, prefix@),
        yes == prefix@.is_prefix_of(text@),
{
    proof {
        law_prefix_and_suffix(text@, prefix@);
    }
    let n = prefix.unicode_len();
    if text.unicode_len() < n {
        return false;
    }
    text.substring_char(0, n).to_string() == prefix.to_string()
}

/// Tests whether `text` ends with `suffix`.
pub fn ends_with(text: &str, suffix: &str) -> (yes: bool)
    ensures
        yes == has_suffix(text@, suffix@),
        yes == suffix@.is_suffix_of(text@),
{
    proof {
        law_prefix_and_suffix(text@, suffix@);
    }
    let n = suffix.unicode_len();
    let len = text.unicode_len();
    if len < n {
        return false;
    }
    text.substring_char(len - n, len).to_string() == suffix.to_string()
}

/// Whether `c` has the Unicode property `White_Space`.
pub open spec fn white_space(c: char) -> bool {
    let u = c as u32;
    ||| 0x9 <= u <= 0xd
    ||| u == 0x20
    ||| u == 0x85
    ||| u == 0xa0
    ||| u == 0x1680
    ||| 0x2000 <= u <= 0x200a
    ||| u == 0x2028
    ||| u == 0x2029
    ||| u == 0x202f
    ||| u == 0x205f
    ||| u == 0x3000
}

/// Tests whether `c` has the Unicode property `White_Space`.
pub fn is_white_space(c: char) -> (yes: bool)
    ensures
        yes == white_space(c),
{
    let u: u32 = c as u32;
    (0x9 <= u && u <= 0xd) || u == 0x20 || u == 0x85 || u == 0xa0 || u == 0x1680 || (0x2000 <= u
        && u <= 0x200a) || u == 0x2028 || u == 0x2029 || u == 0x202f || u == 0x205f || u == 0x3000
}

/// `s` without its leading white space.
pub open spec fn start_trimmed(s: Seq<char>) -> Seq<char>
    decreases s.len(),
{
    if s.len() > 0 && white_space(s.first()) {
        start_trimmed(s.drop_first())
    } else {
        s
    }
}

/// `s` without its trailing white space.
pub open spec fn end_trimmed(s: Seq<char>) -> Seq<char>
    decreases s.len(),
{
    if s.len() > 0 && white_space(s.last()) {
        end_trimmed(s.drop_last())
    } else {
        s
    }
}

/// `s` without its leading and trailing white space.
pub open spec fn trimmed(s: Seq<char>) -> Seq<char> {
    end_trimmed(start_trimmed(s))
}

/// A text is its trimmed text with white space before it and behind it. The
/// trimmed text neither begins nor ends with white space.
pub proof fn law_trimmed(s: Seq<char>)
    ensures
        exists|lead: Seq<char>, tail: Seq<char>|
            s == #[trigger] (lead + trimmed(s) + tail) && lead.all(|c: char| white_space(c))
                && tail.all(|c: char| white_space(c)),
        trimmed(s).len() > 0 ==> !white_space(trimmed(s).first()) && !white_space(
            trimmed(s).last(),
        ),
{
    let inner = start_trimmed(s);
    lemma_start_trimmed(s);
    lemma_end_trimmed(inner);
    let lead = s.take(s.len() - inner.len());
    let tail = inner.skip(trimmed(s).len() as int);
    assert(s =~= lead + trimmed(s) + tail);
    if trimmed(s).len() > 0 {
        assert(trimmed(s).first() == inner.first());
    }
}

proof fn lemma_start_trimmed(s: Seq<char>)
    ensures
        start_trimmed(s).len() <= s.len(),
        start_trimmed(s) == s.skip(s.len() - start_trimmed(s).len()),
        forall|i: int| 0 <= i < s.len() - start_trimmed(s).len() ==> white_space(#[trigger] s[i]),
        start_trimmed(s).len() > 0 ==> !white_space(start_trimmed(s).first()),
    decreases s.len(),
{
    if s.len() > 0 && white_space(s.first()) {
        let rest = s.drop_first();
        lemma_start_trimmed(rest);
        assert forall|i: int| 0 <= i < s.len() - start_trimmed(s).len() implies white_space(
            #[trigger] s[i],
        ) by {
            if i > 0 {
                assert(rest[i - 1] == s[i]);
            }
        }
        assert(start_trimmed(s) =~= s.skip(s.len() - start_trimmed(s).len()));
    } else {
        assert(s.skip(0) =~= s);
    }
}

proof fn lemma_end_trimmed(s: Seq<char>)
    ensures
        end_trimmed(s).len() <= s.len(),
        end_trimmed(s) == s.take(end_trimmed(s).len() as int),
        forall|i: int| end_trimmed(s).len() <= i < s.len() ==> white_space(#[trigger] s[i]),
        end_trimmed(s).len() > 0 ==> !white_space(end_trimmed(s).last()),
    decreases s.len(),
{
    if s.len() > 0 && white_space(s.last()) {
        let rest = s.drop_last();
        lemma_end_trimmed(rest);
        assert forall|i: int| end_trimmed(s).len() <= i < s.len() implies white_space(
            #[trigger] s[i],
        ) by {
            if i < rest.len() {
                assert(rest[i] == s[i]);
            }
        }
        assert(end_trimmed(s) =~= s.take(end_trimmed(s).len() as int));
    } else {
        assert(s.take(s.len() as int) =~= s);
    }
}

/// Copies `text` without its leading and trailing white space.
pub fn trim(text: &str) -> (inner: String)
    ensures
        inner@ == trimmed(text@),
{
    let len = text.unicode_len();
    let mut from: usize = 0;
    assert(text@.skip(0) =~= text@);
    while from < len && is_white_space(text.get_char(from))
        invariant
            from <= len == text@.len(),
            start_trimmed(text@) == start_trimmed(text@.skip(from as int)),
        decreases len - from,
    {
        assert(text@.skip(from as int).drop_first() =~= text@.skip(from + 1));
        from += 1;
    }
    let ghost tail = text@.skip(from as int);
    assert(start_trimmed(text@) == tail);
    let mut to: usize = len;
    assert(text@.subrange(from as int, to as int) =~= tail);
    while from < to && is_white_space(text.get_char(to - 1))
        invariant
            from <= to <= len == text@.len(),
            end_trimmed(tail) == end_trimmed(text@.subrange(from as int, to as int)),
        decreases to,
    {
        assert(text@.subrange(from as int, to as int).drop_last() =~= text@.subrange(
            from as int,
            to - 1,
        ));
        to -= 1;
    }
    text.substring_char(from, to).to_string()
}

} // verus!
