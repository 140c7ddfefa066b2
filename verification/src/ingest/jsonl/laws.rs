//! Laws of the transcripts: which tokens and which texts count, line by line and
//! day by day.

use vstd::prelude::*;
use vstd::utf8::valid_utf8;
use crate::ingest::jsonl::offsets::{line_end, read_lines, readable_len};
use crate::ingest::jsonl::parse::{document_line, first_entry, line_value, LineValue};
use crate::ingest::jsonl::reset::{at_midnight, caught_up, must_roll};
use crate::ingest::jsonl::tokens::{no_tokens, tokens_in, tokens_json, TokensValue};
use crate::ingest::jsonl::watcher::tallied;
use crate::json::JsonValue;
use crate::outside::json_text;
use crate::text::{
    ellipsis_of, first_line_of, lemma_first_index_unique, pieces, text_before, trim_of,
};
use crate::text_laws::{all_white, is_tight, law_trim_takes_what_is_around};

verus! {

/// Whether a document is a message of the assistant.
pub open spec fn is_assistant(doc: JsonValue) -> bool {
    doc.get_str("type"@) == Some("assistant"@) && doc.get("message"@) is Some
}

/// The count that a message carries: `usage.output_tokens`.
pub open spec fn reported(message: JsonValue) -> Option<JsonValue> {
    match message.get("usage"@) {
        Some(usage) => usage.get("output_tokens"@),
        None => None,
    }
}

/// The tokens of a message of the assistant are those that its usage reports,
/// whatever its content is; without a number there they are none.
pub proof fn law_reported_tokens_count(doc: JsonValue)
    requires
        is_assistant(doc),
    ensures
        document_line(doc) is Some,
        reported(doc.get("message"@)->0) matches Some(JsonValue::Unsigned(n)) ==> document_line(
            doc,
        )->0.output_tokens == n,
        !(reported(doc.get("message"@)->0) is Some && reported(doc.get("message"@)->0)->0
            is Unsigned) ==> document_line(doc)->0.output_tokens == 0,
{
}

/// Two messages with the same usage count the same.
pub proof fn law_same_usage_same_tokens(a: JsonValue, b: JsonValue)
    requires
        is_assistant(a),
        is_assistant(b),
        a.get("message"@)->0.get("usage"@) == b.get("message"@)->0.get("usage"@),
    ensures
        document_line(a)->0.output_tokens == document_line(b)->0.output_tokens,
{
}

/// What is no message of the assistant counts for nothing.
pub proof fn law_only_the_assistant_counts(doc: JsonValue)
    ensures
        document_line(doc) is Some <==> is_assistant(doc),
{
}

/// Whether a block of a message is a text that is not blank.
pub open spec fn is_text_block(block: JsonValue) -> bool {
    &&& block.get_str("type"@) == Some("text"@)
    &&& block.get_str("text"@) is Some
    &&& trim_of(block.get_str("text"@)->0).len() > 0
}

proof fn lemma_first_entry(blocks: Seq<JsonValue>, i: int)
    requires
        0 <= i <= blocks.len(),
        forall|k: int| 0 <= k < i ==> !is_text_block(#[trigger] blocks[k]),
        i < blocks.len() ==> is_text_block(blocks[i]),
    ensures
        first_entry(blocks) == if i < blocks.len() {
            Some(ellipsis_of(first_line_of(trim_of(blocks[i].get_str("text"@)->0)), 80))
        } else {
            None
        },
    decreases blocks.len(),
{
    if i > 0 {
        let rest = blocks.subrange(1, blocks.len() as int);
        assert(!is_text_block(blocks[0]));
        assert(forall|k: int| 0 <= k < rest.len() ==> #[trigger] rest[k] == blocks[k + 1]);
        lemma_first_entry(rest, i - 1);
    }
}

/// The text that is shown of a message is the first line of its first text that
/// is not blank, at most eighty letters of it; without such a text there is none.
pub proof fn law_first_text_is_shown(doc: JsonValue, blocks: Seq<JsonValue>, i: int)
    requires
        is_assistant(doc),
        doc.get("message"@)->0.get("content"@) == Some(JsonValue::Array(blocks)),
        0 <= i <= blocks.len(),
        forall|k: int| 0 <= k < i ==> !is_text_block(#[trigger] blocks[k]),
        i < blocks.len() ==> is_text_block(blocks[i]),
    ensures
        i < blocks.len() ==> document_line(doc)->0.entry_text == Some(
            ellipsis_of(first_line_of(trim_of(blocks[i].get_str("text"@)->0)), 80),
        ),
        i == blocks.len() ==> document_line(doc)->0.entry_text is None,
{
    lemma_first_entry(blocks, i);
}

/// A message whose content is no list shows nothing.
pub proof fn law_other_content_shows_nothing(doc: JsonValue)
    requires
        is_assistant(doc),
        !(doc.get("message"@)->0.get("content"@) is Some && doc.get("message"@)->0.get(
            "content"@,
        )->0 is Array),
    ensures
        document_line(doc)->0.entry_text is None,
{
}

/// A line is read as the document that it holds, whatever white space is around
/// it; a blank line and one that is no JSON tell nothing.
pub proof fn law_line_is_its_document(before: Seq<char>, text: Seq<char>, after: Seq<char>)
    requires
        all_white(before),
        all_white(after),
        is_tight(text),
    ensures
        text.len() == 0 || json_text(text) is None ==> line_value(before + text + after) is None,
        text.len() > 0 && json_text(text) is Some ==> line_value(before + text + after)
            == document_line(json_text(text)->0),
{
    law_trim_takes_what_is_around(before, text, after);
}

/// The tokens of a line are added to the day and to the total, all of them, and
/// the day stays the same.
pub proof fn law_line_is_counted(t: TokensValue, a: LineValue, b: LineValue)
    requires
        t.today + a.output_tokens + b.output_tokens <= u64::MAX,
        t.cumulative + a.output_tokens + b.output_tokens <= u64::MAX,
    ensures
        tallied(t, a).today == t.today + a.output_tokens,
        tallied(t, a).cumulative == t.cumulative + a.output_tokens,
        tallied(t, a).date == t.date,
        tallied(tallied(t, a), b) == tallied(tallied(t, b), a),
{
}

/// On a later day the day's count starts again from zero; on the same day, or on
/// an earlier one, it goes on; and counts without a day take the day they are
/// read on and keep what they have.
pub proof fn law_new_day_starts_from_zero(t: TokensValue, today: Seq<char>)
    ensures
        t.date.len() > 0 && text_before(t.date, today) ==> {
            &&& must_roll(t, today)
            &&& caught_up(t, today) == (TokensValue { date: today, today: 0, cumulative: t.cumulative })
        },
        t.date.len() > 0 && !text_before(t.date, today) ==> !must_roll(t, today) && caught_up(t, today)
            == t,
        t.date.len() == 0 ==> !must_roll(t, today) && caught_up(t, today) == (TokensValue {
            date: today,
            today: t.today,
            cumulative: t.cumulative,
        }),
{
}

/// At midnight the day's count is that of the new day, and the total the larger
/// of the two that are known.
pub proof fn law_midnight_counts(t: TokensValue, total: u64, today: Seq<char>)
    ensures
        at_midnight(t, total, today).today == caught_up(t, today).today,
        at_midnight(t, total, today).date == caught_up(t, today).date,
        t.cumulative < total ==> at_midnight(t, total, today).cumulative == total,
        t.cumulative >= total ==> at_midnight(t, total, today).cumulative == t.cumulative,
{
}

/// Counts are kept under their own names: the day as text, the two counts as
/// numbers. With one of them missing nothing is read.
pub proof fn law_counts_on_disk(v: JsonValue, t: TokensValue)
    ensures
        v is Object ==> {
            &&& tokens_in(v) is Some <==> v.get_str("date"@) is Some && v.get("today"@) is Some
                && v.get("today"@)->0 is Unsigned && v.get("cumulative"@) is Some && v.get(
                "cumulative"@,
            )->0 is Unsigned
            &&& tokens_in(v) matches Some(r) ==> Some(r.date) == v.get_str("date"@) && v.get(
                "today"@,
            ) == Some(JsonValue::Unsigned(r.today)) && v.get("cumulative"@) == Some(
                JsonValue::Unsigned(r.cumulative),
            )
        },
        tokens_json(t).get_str("date"@) == Some(t.date),
        tokens_json(t).get("today"@) == Some(JsonValue::Unsigned(t.today)),
        tokens_json(t).get("cumulative"@) == Some(JsonValue::Unsigned(t.cumulative)),
        no_tokens().date.len() == 0 && no_tokens().today == 0 && no_tokens().cumulative == 0,
{
    crate::ingest::jsonl::tokens::law_tokens_read_back(t);
    let m = crate::ingest::jsonl::tokens::tokens_members(t);
    assert(m[0].0 == "date"@ && m[1].0 == "today"@ && m[2].0 == "cumulative"@);
    crate::assoc::lemma_lookup_at(m, 0);
    crate::assoc::lemma_lookup_at(m, 1);
    crate::assoc::lemma_lookup_at(m, 2);
}

/// A text is read line by line: what stands before the first line feed is the
/// first line, without the carriage return at its end, and the rest follows.
/// What has no line feed behind it is a line if there is anything.
pub proof fn law_lines_are_read_one_by_one(line: Seq<char>, rest: Seq<char>)
    requires
        !line.contains('\n'),
    ensures
        line.len() == 0 ==> read_lines(line) == Seq::<Seq<char>>::empty(),
        line.len() > 0 ==> read_lines(line) == seq![line],
        line.len() == 0 || line.last() != '\r' ==> read_lines(line + seq!['\n'] + rest) == seq![line]
            + read_lines(rest),
        line.len() > 0 && line.last() == '\r' ==> read_lines(line + seq!['\n'] + rest) == seq![
            line.drop_last(),
        ] + read_lines(rest),
{
    lemma_first_index_unique(line, '\n', line.len());
    assert(pieces(line, '\n') =~= seq![line]);
    assert(read_lines(line) =~= if line.len() == 0 {
        Seq::empty()
    } else {
        seq![line]
    });
    let a = line + seq!['\n'] + rest;
    assert forall|i: int| 0 <= i < line.len() implies a[i] != '\n' by {
        assert(line.contains(line[i]));
    }
    lemma_first_index_unique(a, '\n', line.len());
    assert(a.subrange(0, line.len() as int) =~= line);
    assert(a.subrange(line.len() as int + 1, a.len() as int) =~= rest);
    crate::text_laws::law_pieces_join(rest, '\n');
    let parts = pieces(a, '\n');
    assert(parts =~= seq![line] + pieces(rest, '\n'));
    assert(parts.drop_last() =~= seq![line] + pieces(rest, '\n').drop_last());
    let cut = if line.len() > 0 && line.last() == '\r' {
        line.drop_last()
    } else {
        line
    };
    assert(read_lines(a) =~= seq![cut] + read_lines(rest));
}

/// Bytes are read line by line as long as the lines are UTF-8, and no further.
pub proof fn law_bytes_are_read_line_by_line(line: Seq<u8>, rest: Seq<u8>)
    requires
        !line.contains(10u8),
    ensures
        line.len() == 0 ==> readable_len(line) == 0,
        line.len() > 0 && valid_utf8(line) ==> readable_len(line) == line.len(),
        line.len() > 0 && !valid_utf8(line) ==> readable_len(line) == 0,
        valid_utf8(line.push(10u8)) ==> readable_len(line.push(10u8) + rest) == line.len() + 1
            + readable_len(rest),
        !valid_utf8(line.push(10u8)) ==> readable_len(line.push(10u8) + rest) == 0,
{
    lemma_line_ends(line, Seq::empty(), false);
    lemma_line_ends(line, rest, true);
    assert(line + Seq::empty() =~= line);
    if line.len() > 0 {
        assert(line.take(line.len() as int) =~= line);
        assert(line.subrange(line.len() as int, line.len() as int) =~= Seq::empty());
        assert(readable_len(Seq::<u8>::empty()) == 0);
    }
    let a = line.push(10u8) + rest;
    assert(a.take(line.len() as int + 1) =~= line.push(10u8));
    assert(a.subrange(line.len() as int + 1, a.len() as int) =~= rest);
}

proof fn lemma_line_ends(line: Seq<u8>, rest: Seq<u8>, ended: bool)
    requires
        !line.contains(10u8),
        !ended ==> rest.len() == 0,
    ensures
        ended ==> line_end(line.push(10u8) + rest) == line.len() + 1,
        !ended ==> line_end(line) == line.len(),
    decreases line.len(),
{
    if line.len() > 0 {
        assert(line.contains(line[0]));
        let tail = line.subrange(1, line.len() as int);
        assert forall|i: int| 0 <= i < tail.len() implies tail[i] != 10u8 by {
            assert(line.contains(line[i + 1]));
        }
        lemma_line_ends(tail, rest, ended);
        let a = line.push(10u8) + rest;
        assert(a[0] == line[0]);
        assert(a.subrange(1, a.len() as int) =~= tail.push(10u8) + rest);
    } else {
        let a = line.push(10u8) + rest;
        assert(a[0] == 10u8);
    }
}

/// Counts may also be an array of the day and the two counts, in order.
pub proof fn law_counts_as_an_array(items: Seq<JsonValue>)
    ensures
        items.len() == 3 ==> tokens_in(JsonValue::Array(items)) == tokens_in(
            JsonValue::Object(
                seq![("date"@, items[0]), ("today"@, items[1]), ("cumulative"@, items[2])],
            ),
        ),
        items.len() != 3 ==> tokens_in(JsonValue::Array(items)) is None,
{
    if items.len() == 3 {
        assert(crate::json_form::positional(
            crate::ingest::jsonl::tokens::tokens_names(),
            items,
        ) =~= seq![("date"@, items[0]), ("today"@, items[1]), ("cumulative"@, items[2])]);
    }
}

} // verus!
