//! The naming convention of stream-capture screenshots.
//!
//! A capture tool names its files
//! `<channel>_<weekday>-<month>-<day>-<year>_<hour>_<minute>_<second>-<AM|PM>[(<n>)].png`.
//! The channel may itself hold underscores, so a name is read from its end:
//! the last three segments are the time, the one before them is the date, and
//! whatever stands in front is the channel.

use crate::text::{
    before_first, chars_of, join, join_with, lemma_before_first, lemma_before_first_extends,
    lemma_join_concat, lemma_join_split, lemma_split_append_free, lemma_split_concat,
    lemma_split_free, lemma_split_len, prefix_before, split, split_on, views,
};
use vstd::prelude::*;
use vstd::slice::slice_subrange;
use vstd::string::StrSliceExecFns;

verus! {

/// Separates channel, date and the three parts of the time.
pub const SEGMENT_DELIMITER: char = '_';

/// Separates weekday, month, day and year inside the date.
pub const DATE_DELIMITER: char = '-';

/// Opens the counter that a duplicate file carries behind its time.
pub const COUNTER_OPENER: char = '(';

/// The extension that every screenshot carries.
pub open spec fn extension() -> Seq<char> {
    seq!['.', 'p', 'n', 'g']
}

/// Whether `name` ends in the screenshot extension.
pub open spec fn has_extension(name: Seq<char>) -> bool {
    name.len() >= 4 && name.skip(name.len() - 4) == extension()
}

/// `name` without its last four characters, the extension.
pub open spec fn stem(name: Seq<char>) -> Seq<char> {
    name.take(name.len() - 4)
}

/// The underscore-separated segments of the stem of `name`.
pub open spec fn segments(name: Seq<char>) -> Seq<Seq<char>> {
    split_on(stem(name), SEGMENT_DELIMITER)
}

/// The fourth segment from the end.
pub open spec fn date_token(name: Seq<char>) -> Seq<char> {
    segments(name)[segments(name).len() - 4]
}

/// The last three segments, joined again.
pub open spec fn time_token(name: Seq<char>) -> Seq<char> {
    join_with(segments(name).skip(segments(name).len() - 3), SEGMENT_DELIMITER)
}

/// A date such as `Sat-Jan-18-2025`: fifteen characters in four parts.
pub open spec fn date_is_plausible(date: Seq<char>) -> bool {
    date.len() == 15 && split_on(date, DATE_DELIMITER).len() == 4
}

/// A time such as `1_06_05-PM` or `12_06_05-AM`, with or without a counter
/// behind it. Only what stands in front of the counter is looked at, and only
/// where it is ten or eleven characters long must it have three parts; a time
/// of any other length passes.
pub open spec fn time_is_plausible(time: Seq<char>) -> bool {
    let shown = before_first(time, COUNTER_OPENER);
    (shown.len() == 10 || shown.len() == 11) ==> split_on(shown, SEGMENT_DELIMITER).len() == 3
}

/// Whether a file of this name is taken for a screenshot.
pub open spec fn is_screenshot_name(name: Seq<char>) -> bool {
    &&& has_extension(name)
    &&& segments(name).len() >= 5
    &&& date_is_plausible(date_token(name))
    &&& time_is_plausible(time_token(name))
}

/// The channel that a file name speaks of: all segments of the name but the
/// last four, joined again.
pub open spec fn channel_of(name: Seq<char>) -> Seq<char> {
    let parts = split_on(name, SEGMENT_DELIMITER);
    join_with(parts.take(parts.len() - 4), SEGMENT_DELIMITER)
}

/// The extension holds no underscore, so a name with the extension has as
/// many segments as its stem, and the same ones up to the last.
pub proof fn lemma_segments_of_name(name: Seq<char>)
    requires
        has_extension(name),
    ensures
        split_on(name, SEGMENT_DELIMITER).len() == segments(name).len(),
        split_on(name, SEGMENT_DELIMITER).drop_last() == segments(name).drop_last(),
        split_on(name, SEGMENT_DELIMITER).last() == segments(name).last() + extension(),
{
    let ext = extension();
    assert(!ext.contains(SEGMENT_DELIMITER));
    assert(stem(name) + ext == name);
    lemma_split_append_free(stem(name), ext, SEGMENT_DELIMITER);
    lemma_split_len(stem(name), SEGMENT_DELIMITER);
}

/// Every screenshot name has the five segments that reading its channel
/// asks for, and its channel is made of the segments in front of the date.
pub proof fn lemma_screenshot_has_channel(name: Seq<char>)
    requires
        is_screenshot_name(name),
    ensures
        split_on(name, SEGMENT_DELIMITER).len() >= 5,
        channel_of(name) == join_with(
            segments(name).take(segments(name).len() - 4),
            SEGMENT_DELIMITER,
        ),
{
    lemma_segments_of_name(name);
    let whole = split_on(name, SEGMENT_DELIMITER);
    let inner = segments(name);
    assert(whole.take(whole.len() - 4) == whole.drop_last().take(whole.len() - 4));
    assert(inner.take(inner.len() - 4) == inner.drop_last().take(inner.len() - 4));
}

/// The channel is the start of the name: the name begins with its channel,
/// and where the channel has a segment at all an underscore follows it.
pub proof fn lemma_channel_is_prefix(name: Seq<char>)
    requires
        split_on(name, SEGMENT_DELIMITER).len() >= 4,
    ensures
        channel_of(name).len() <= name.len(),
        channel_of(name) == name.take(channel_of(name).len() as int),
        split_on(name, SEGMENT_DELIMITER).len() >= 5 ==> channel_of(name).len() < name.len()
            && name[channel_of(name).len() as int] == SEGMENT_DELIMITER,
{
    let d = SEGMENT_DELIMITER;
    let parts = split_on(name, d);
    let front = parts.take(parts.len() - 4);
    let back = parts.skip(parts.len() - 4);
    lemma_join_split(name, d);
    assert(front + back == parts);
    if front.len() == 0 {
        assert(name.take(0) == Seq::<char>::empty());
    } else {
        lemma_join_concat(front, back, d);
        let channel = join_with(front, d);
        assert(name == channel + seq![d] + join_with(back, d));
        assert(name.take(channel.len() as int) == channel);
        assert(name[channel.len() as int] == d);
    }
}

/// The name that the convention gives to a capture.
pub open spec fn conforming_name(
    channel: Seq<char>,
    date: Seq<char>,
    hour: Seq<char>,
    minute: Seq<char>,
    rest: Seq<char>,
) -> Seq<char> {
    channel + seq![SEGMENT_DELIMITER] + date + seq![SEGMENT_DELIMITER] + hour + seq![
        SEGMENT_DELIMITER,
    ] + minute + seq![SEGMENT_DELIMITER] + rest + extension()
}

/// A name put together after the convention is a screenshot name, and its
/// channel is the one it was put together from: any channel, underscores
/// included; a date of fifteen characters with three hyphens; hour and minute
/// without a bracket; and a rest (the second, the half of the day and perhaps
/// a counter) of any form. Date, hour, minute and rest hold no underscore.
pub proof fn lemma_conforming_name(
    channel: Seq<char>,
    date: Seq<char>,
    hour: Seq<char>,
    minute: Seq<char>,
    rest: Seq<char>,
)
    requires
        !date.contains(SEGMENT_DELIMITER),
        !hour.contains(SEGMENT_DELIMITER),
        !minute.contains(SEGMENT_DELIMITER),
        !rest.contains(SEGMENT_DELIMITER),
        date_is_plausible(date),
        !hour.contains(COUNTER_OPENER),
        !minute.contains(COUNTER_OPENER),
    ensures
        is_screenshot_name(conforming_name(channel, date, hour, minute, rest)),
        channel_of(conforming_name(channel, date, hour, minute, rest)) == channel,
{
    let d = SEGMENT_DELIMITER;
    let sep = seq![d];
    let name = conforming_name(channel, date, hour, minute, rest);
    let tail = seq![date, hour, minute, rest];
    let time = hour + sep + minute + sep + rest;
    let inner = channel + sep + date + sep + hour + sep + minute + sep + rest;
    assert(name == inner + extension());
    assert(name.skip(name.len() - 4) == extension());
    assert(stem(name) == inner);

    // The stem splits into the segments of the channel and the four tokens.
    lemma_split_free(date, d);
    lemma_split_free(hour, d);
    lemma_split_free(minute, d);
    lemma_split_free(rest, d);
    lemma_split_concat(channel, date, d);
    lemma_split_concat(channel + sep + date, hour, d);
    lemma_split_concat(channel + sep + date + sep + hour, minute, d);
    lemma_split_concat(channel + sep + date + sep + hour + sep + minute, rest, d);
    let front = split_on(channel, d);
    lemma_split_len(channel, d);
    assert(segments(name) == front + tail);
    assert(date_token(name) == date);
    assert(segments(name).skip(segments(name).len() - 3) == seq![hour, minute, rest]);
    assert(seq![hour, minute, rest].drop_last() == seq![hour, minute]);
    assert(seq![hour, minute].drop_last() == seq![hour]);
    assert(join_with(seq![hour], d) == hour);
    assert(join_with(seq![hour, minute], d) == hour + sep + minute);
    assert(time_token(name) == time);

    // What stands in front of a counter still holds both underscores.
    let o = COUNTER_OPENER;
    lemma_split_free(hour, o);
    lemma_split_free(minute, o);
    assert(!sep.contains(o));
    lemma_split_append_free(hour, sep, o);
    lemma_split_append_free(hour + sep, minute, o);
    lemma_split_append_free(hour + sep + minute, sep, o);
    let head = hour + sep + minute + sep;
    assert(split_on(head, o) == seq![head]) by {
        assert(seq![hour].drop_last().push(hour + sep) == seq![hour + sep]);
        assert(seq![hour + sep].drop_last().push(hour + sep + minute) == seq![
            hour + sep + minute,
        ]);
        assert(seq![hour + sep + minute].drop_last().push(head) == seq![head]);
    }
    lemma_before_first_extends(head, rest, o);
    let shown = before_first(time, o);
    let shown_rest = before_first(rest, o);
    assert(head + rest == time);
    assert(shown == head + shown_rest);
    lemma_before_first(rest, o);
    assert(!shown_rest.contains(d)) by {
        if shown_rest.contains(d) {
            let j = choose|j: int| 0 <= j < shown_rest.len() && shown_rest[j] == d;
            assert(rest[j] == shown_rest[j]);
        }
    }
    lemma_split_free(shown_rest, d);
    lemma_split_concat(hour, minute, d);
    lemma_split_concat(hour + sep + minute, shown_rest, d);
    assert(shown == hour + sep + minute + sep + shown_rest);
    assert(split_on(shown, d).len() == 3);

    // The channel is what the segments in front of the date join to.
    lemma_screenshot_has_channel(name);
    assert(segments(name).take(segments(name).len() - 4) == front);
    lemma_join_split(channel, d);
}

/// Whether the characters end in `.png`.
fn ends_with_extension(chars: &[char]) -> (found: bool)
    ensures
        found == has_extension(chars@),
{
    let n = chars.len();
    if n < 4 {
        return false;
    }
    let found = chars[n - 4] == '.' && chars[n - 3] == 'p' && chars[n - 2] == 'n' && chars[n - 1]
        == 'g';
    proof {
        let tail = chars@.skip(n - 4);
        assert(tail.len() == 4);
        assert(tail[0] == chars@[n - 4] && tail[1] == chars@[n - 3] && tail[2] == chars@[n - 2]
            && tail[3] == chars@[n - 1]);
        if found {
            assert(tail == extension());
        }
    }
    found
}

/// Decides from its name alone whether a file is a screenshot.
///
/// The name must end in `.png`; its stem must have at least five segments;
/// the date must be plausible, and so must the time.
pub fn is_screenshot(filename: &str) -> (verdict: bool)
    ensures
        verdict == is_screenshot_name(filename@),
        !has_extension(filename@) ==> !verdict,
        verdict ==> date_token(filename@).len() == 15 && split_on(
            date_token(filename@),
            DATE_DELIMITER,
        ).len() == 4,
{
    let chars = chars_of(filename);
    if !ends_with_extension(chars.as_slice()) {
        return false;
    }
    let stem_chars = slice_subrange(chars.as_slice(), 0, chars.len() - 4);
    let parts = split(stem_chars, SEGMENT_DELIMITER);
    let n = parts.len();
    if n < 5 {
        return false;
    }
    let time = join(slice_subrange(parts.as_slice(), n - 3, n), SEGMENT_DELIMITER);
    let date = &parts[n - 4];
    proof {
        assert(views(parts@) == segments(filename@));
        assert(views(parts@.subrange(n - 3, n as int)) == views(parts@).skip(n - 3));
        assert(date@ == views(parts@)[n - 4]);
    }
    if date.len() != 15 || split(date.as_slice(), DATE_DELIMITER).len() != 4 {
        return false;
    }
    let shown = prefix_before(time.as_slice(), COUNTER_OPENER);
    if (shown.len() == 10 || shown.len() == 11) && split(shown, SEGMENT_DELIMITER).len() != 3 {
        return false;
    }
    true
}

/// Reads the channel out of a file name: all its segments but the last four,
/// with their underscores. The name must have the four segments that are left
/// out, as every screenshot name has.
pub fn channel_name(filename: &str) -> (channel: String)
    requires
        split_on(filename@, SEGMENT_DELIMITER).len() >= 4,
    ensures
        channel@ == channel_of(filename@),
{
    let chars = chars_of(filename);
    let parts = split(chars.as_slice(), SEGMENT_DELIMITER);
    let n = parts.len();
    let joined = join(slice_subrange(parts.as_slice(), 0, n - 4), SEGMENT_DELIMITER);
    proof {
        assert(views(parts@.subrange(0, n - 4)) == views(parts@).take(n - 4));
        lemma_channel_is_prefix(filename@);
    }
    filename.substring_char(0, joined.len()).to_owned()
}

} // verus!
