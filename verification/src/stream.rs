//! Rendering of the phase events of a provisioning stream.
//!
//! A stream of Server-Sent Events comes in chunks of bytes. An event is a block of lines that two
//! line feeds end. Each event is shown as one line, and the coordinates of the instance as further
//! lines where the event carries them.

use vstd::prelude::*;
use vstd::slice::slice_subrange;
use vstd::utf8::{
    decode_utf8, encode_utf8, encode_utf8_decode_utf8, encode_utf8_valid_utf8, valid_utf8,
};

use crate::json::{
    json_parse, lemma_array_view, parse_json, string_items, strings_of, tree_get, tree_get_str, Json,
    JsonTree,
};
use crate::text::{after_prefix, law_prefixes, lines, lines_of, same, strip_prefix, utf8_text};

verus! {

/// The index of the first pair of line feeds in `buf`, if there is one.
pub open spec fn first_break(buf: Seq<u8>) -> Option<nat>
    decreases buf.len(),
{
    if buf.len() < 2 {
        None
    } else if buf[0] == 10 && buf[1] == 10 {
        Some(0)
    } else {
        match first_break(buf.drop_first()) {
            Some(i) => Some(i + 1),
            None => None,
        }
    }
}

/// The complete blocks of `buf`, and the bytes after the last of them.
pub open spec fn split_blocks(buf: Seq<u8>) -> (Seq<Seq<u8>>, Seq<u8>)
    decreases buf.len(),
{
    match first_break(buf) {
        Some(i) => {
            if i + 2 <= buf.len() {
                let (blocks, rest) = split_blocks(buf.skip(i as int + 2));
                (seq![buf.take(i as int)] + blocks, rest)
            } else {
                (Seq::empty(), buf)
            }
        },
        None => (Seq::empty(), buf),
    }
}

/// The rest of the last line that begins with `name`, if a line does.
pub open spec fn last_field(lines: Seq<Seq<char>>, name: Seq<char>) -> Option<Seq<char>>
    decreases lines.len(),
{
    if lines.len() == 0 {
        None
    } else {
        match after_prefix(lines.last(), name) {
            Some(value) => Some(value),
            None => last_field(lines.drop_last(), name),
        }
    }
}

/// The name of the event that a block stands for; empty where it names none.
pub open spec fn block_event(block: Seq<char>) -> Seq<char> {
    match last_field(lines_of(block), "event: "@) {
        Some(event) => event,
        None => Seq::empty(),
    }
}

/// The data of the event that a block stands for.
pub open spec fn block_data(block: Seq<char>) -> Option<Seq<char>> {
    last_field(lines_of(block), "data: "@)
}

/// Whether an event is shown: it has a name, and is not sent to keep the stream alive.
pub open spec fn is_shown(event: Seq<char>) -> bool {
    event.len() > 0 && event != "ping"@ && event != "keep-alive"@
}

/// The line that shows an event: its name, and its message where it has one.
pub open spec fn event_line(event: Seq<char>, data: Option<JsonTree>) -> Seq<char> {
    let message = match data {
        Some(v) => match tree_get_str(v, "message"@) {
            Some(m) => m,
            None => Seq::empty(),
        },
        None => Seq::empty(),
    };
    if message.len() == 0 {
        "  ▸ "@ + event
    } else {
        "  ▸ "@ + event + ": "@ + message
    }
}

/// The line for the identifier of an instance.
pub open spec fn uid_lines(coords: JsonTree) -> Seq<Seq<char>> {
    match tree_get_str(coords, "instance_uid"@) {
        Some(uid) => seq!["      instance_uid: "@ + uid],
        None => Seq::empty(),
    }
}

/// The line for one endpoint of an instance.
pub open spec fn endpoint_line(endpoint: Seq<char>) -> Seq<char> {
    "      endpoint:     "@ + endpoint + "   ← point your MCP client here"@
}

/// The lines for the endpoints of an instance.
pub open spec fn endpoint_lines(coords: JsonTree) -> Seq<Seq<char>> {
    match tree_get(coords, "endpoints"@) {
        Some(JsonTree::Array(items)) => strings_of(items).map_values(
            |e: Seq<char>| endpoint_line(e),
        ),
        _ => Seq::empty(),
    }
}

/// The lines for the coordinates that an event carries.
pub open spec fn coords_lines(data: Option<JsonTree>) -> Seq<Seq<char>> {
    match data {
        Some(v) => match tree_get(v, "coords"@) {
            Some(coords) => uid_lines(coords) + endpoint_lines(coords),
            None => Seq::empty(),
        },
        None => Seq::empty(),
    }
}

/// The lines for an event with the given data.
pub open spec fn event_lines(event: Seq<char>, data: Option<JsonTree>) -> Seq<Seq<char>> {
    if is_shown(event) {
        seq![event_line(event, data)] + coords_lines(data)
    } else {
        Seq::empty()
    }
}

/// The lines for a block.
pub open spec fn block_lines(block: Seq<char>) -> Seq<Seq<char>> {
    event_lines(
        block_event(block),
        match block_data(block) {
            Some(d) => json_parse(encode_utf8(d)),
            None => None,
        },
    )
}

/// The lines for the bytes of a block; none where they are not UTF-8.
pub open spec fn bytes_lines(block: Seq<u8>) -> Seq<Seq<char>> {
    if valid_utf8(block) {
        block_lines(decode_utf8(block))
    } else {
        Seq::empty()
    }
}

/// The lines for a run of blocks.
pub open spec fn blocks_lines(blocks: Seq<Seq<u8>>) -> Seq<Seq<char>>
    decreases blocks.len(),
{
    if blocks.len() == 0 {
        Seq::empty()
    } else {
        bytes_lines(blocks[0]) + blocks_lines(blocks.drop_first())
    }
}

/// The lines for what is left when a stream closes.
pub open spec fn rest_lines(rest: Seq<u8>) -> Seq<Seq<char>> {
    if rest.len() == 0 {
        Seq::empty()
    } else {
        bytes_lines(rest)
    }
}

/// The lines for a stream whose bytes came all at once.
pub open spec fn whole_lines(bytes: Seq<u8>) -> Seq<Seq<char>> {
    blocks_lines(split_blocks(bytes).0) + rest_lines(split_blocks(bytes).1)
}

/// The lines for a stream of which `rest` was read and not yet shown and `chunks` are to come.
pub open spec fn chunked_lines(rest: Seq<u8>, chunks: Seq<Seq<u8>>) -> Seq<Seq<char>>
    decreases chunks.len(),
{
    if chunks.len() == 0 {
        rest_lines(rest)
    } else {
        let (blocks, next) = split_blocks(rest + chunks[0]);
        blocks_lines(blocks) + chunked_lines(next, chunks.drop_first())
    }
}

/// What `first_break` gives: the first pair of line feeds.
proof fn lemma_first_break(buf: Seq<u8>)
    ensures
        match first_break(buf) {
            Some(i) => i + 2 <= buf.len() && buf[i as int] == 10 && buf[i as int + 1] == 10 && forall|j: int|
                0 <= j < i ==> !(#[trigger] buf[j] == 10 && buf[j + 1] == 10),
            None => forall|j: int|
                0 <= j < buf.len() - 1 ==> !(#[trigger] buf[j] == 10 && buf[j + 1] == 10),
        },
    decreases buf.len(),
{
    if buf.len() >= 2 && !(buf[0] == 10 && buf[1] == 10) {
        let tail = buf.drop_first();
        lemma_first_break(tail);
        assert forall|j: int| 0 < j < buf.len() - 1 implies (#[trigger] buf[j] == 10 && buf[j + 1]
            == 10) == (tail[j - 1] == 10 && tail[j] == 10) by {}
    }
}

/// The first pair of line feeds is the only one that no other comes before.
proof fn lemma_first_break_unique(buf: Seq<u8>, k: int)
    requires
        0 <= k,
        k + 2 <= buf.len(),
        buf[k] == 10 && buf[k + 1] == 10,
        forall|j: int| 0 <= j < k ==> !(#[trigger] buf[j] == 10 && buf[j + 1] == 10),
    ensures
        first_break(buf) == Some(k as nat),
{
    lemma_first_break(buf);
    let i = first_break(buf);
    assert(buf[k] == 10);
    if i is Some && i->0 != k {
        assert(buf[i->0 as int] == 10);
    }
}

/// Bytes that come later do not move a block that is complete.
proof fn lemma_first_break_prefix(a: Seq<u8>, b: Seq<u8>)
    requires
        first_break(a) is Some,
    ensures
        first_break(a + b) == first_break(a),
{
    lemma_first_break(a);
    let k = first_break(a)->0 as int;
    let whole = a + b;
    assert forall|j: int| 0 <= j < k implies !(#[trigger] whole[j] == 10 && whole[j + 1] == 10) by {
        assert(whole[j] == a[j] && whole[j + 1] == a[j + 1]);
    }
    lemma_first_break_unique(whole, k);
}

/// Splitting the bytes `a` and then what they left together with `b` finds the blocks, and leaves
/// the rest, that splitting `a` and `b` at once does.
pub proof fn law_split_blocks_resumes(a: Seq<u8>, b: Seq<u8>)
    ensures
        split_blocks(a + b).0 == split_blocks(a).0 + split_blocks(split_blocks(a).1 + b).0,
        split_blocks(a + b).1 == split_blocks(split_blocks(a).1 + b).1,
    decreases a.len(),
{
    lemma_first_break(a);
    match first_break(a) {
        Some(i) => {
            lemma_first_break_prefix(a, b);
            let tail = a.skip(i as int + 2);
            law_split_blocks_resumes(tail, b);
            assert((a + b).skip(i as int + 2) == tail + b);
            assert((a + b).take(i as int) == a.take(i as int));
            assert(split_blocks(a + b).0 == seq![a.take(i as int)] + split_blocks(tail + b).0);
        },
        None => {
            assert(split_blocks(a).0 + split_blocks(a + b).0 == split_blocks(a + b).0);
        },
    }
}

/// No pair of line feeds is left in what a split leaves.
pub proof fn law_rest_holds_no_break(buf: Seq<u8>)
    ensures
        first_break(split_blocks(buf).1) is None,
    decreases buf.len(),
{
    lemma_first_break(buf);
    match first_break(buf) {
        Some(i) => {
            law_rest_holds_no_break(buf.skip(i as int + 2));
        },
        None => {},
    }
}

proof fn lemma_blocks_lines_concat(a: Seq<Seq<u8>>, b: Seq<Seq<u8>>)
    ensures
        blocks_lines(a + b) == blocks_lines(a) + blocks_lines(b),
    decreases a.len(),
{
    if a.len() == 0 {
        assert(a + b == b);
        assert(blocks_lines(a) + blocks_lines(b) == blocks_lines(b));
    } else {
        lemma_blocks_lines_concat(a.drop_first(), b);
        assert((a + b).drop_first() == a.drop_first() + b);
        assert(blocks_lines(a + b) == blocks_lines(a) + blocks_lines(b));
    }
}

/// How a stream is cut into chunks does not matter: the lines shown are those for its bytes at once.
pub proof fn law_chunks_do_not_matter(rest: Seq<u8>, chunks: Seq<Seq<u8>>)
    requires
        first_break(rest) is None,
    ensures
        chunked_lines(rest, chunks) == whole_lines(rest + chunks.flatten()),
    decreases chunks.len(),
{
    if chunks.len() == 0 {
        assert(rest + chunks.flatten() == rest);
        assert(split_blocks(rest).0 == Seq::<Seq<u8>>::empty());
        assert(whole_lines(rest) == rest_lines(rest));
    } else {
        let first = chunks[0];
        let later = chunks.drop_first();
        let read = rest + first;
        let next = split_blocks(read).1;
        law_rest_holds_no_break(read);
        law_chunks_do_not_matter(next, later);
        let all = rest + chunks.flatten();
        assert(chunks.flatten() == first + later.flatten());
        assert(all == read + later.flatten());
        law_split_blocks_resumes(read, later.flatten());
        lemma_blocks_lines_concat(
            split_blocks(read).0,
            split_blocks(next + later.flatten()).0,
        );
        assert(chunked_lines(rest, chunks) == whole_lines(all));
    }
}

/// The index of the first pair of line feeds in `buf`, if there is one.
pub fn find_double_newline(buf: &[u8]) -> (r: Option<usize>)
    ensures
        match r {
            Some(i) => first_break(buf@) == Some(i as nat),
            None => first_break(buf@) is None,
        },
{
    let mut i: usize = 0;
    while buf.len() >= 2 && i < buf.len() - 1
        invariant
            i <= buf@.len(),
            forall|j: int| 0 <= j < i ==> !(#[trigger] buf@[j] == 10 && buf@[j + 1] == 10),
        decreases buf@.len() - i,
    {
        if buf[i] == 10 && buf[i + 1] == 10 {
            proof {
                lemma_first_break_unique(buf@, i as int);
            }
            return Some(i);
        }
        i += 1;
    }
    proof {
        lemma_first_break(buf@);
        if first_break(buf@) is Some {
            assert(buf@[first_break(buf@)->0 as int] == 10);
        }
    }
    None
}

proof fn lemma_field_names_differ(line: Seq<char>)
    ensures
        after_prefix(line, "event: "@) is Some ==> after_prefix(line, "data: "@) is None,
{
    reveal_strlit("event: ");
    reveal_strlit("data: ");
    if "event: "@.is_prefix_of(line) && "data: "@.is_prefix_of(line) {
        assert("event: "@[0] == line.subrange(0, "event: "@.len() as int)[0]);
        assert("data: "@[0] == line.subrange(0, "data: "@.len() as int)[0]);
    }
}

/// The name and the data of the event that a block stands for.
pub fn block_fields(block: &str) -> (r: (String, Option<String>))
    ensures
        r.0@ == block_event(block@),
        r.1.deep_view() == block_data(block@),
{
    let all = lines(block);
    let ghost shown = lines_of(block@);
    let mut event = String::new();
    let mut data: Option<String> = None;
    let mut i: usize = 0;
    assert(shown.take(0) == Seq::<Seq<char>>::empty());
    while i < all.len()
        invariant
            i <= all@.len(),
            all.deep_view() == shown,
            event@ == match last_field(shown.take(i as int), "event: "@) {
                Some(e) => e,
                None => Seq::empty(),
            },
            data.deep_view() == last_field(shown.take(i as int), "data: "@),
        decreases all@.len() - i,
    {
        assert(shown.take(i + 1).drop_last() == shown.take(i as int));
        assert(shown.take(i + 1).last() == all@[i as int]@);
        proof {
            lemma_field_names_differ(all@[i as int]@);
        }
        if let Some(rest) = strip_prefix(all[i].as_str(), "event: ") {
            event = rest;
        } else if let Some(rest) = strip_prefix(all[i].as_str(), "data: ") {
            data = Some(rest);
        }
        i += 1;
    }
    assert(shown.take(i as int) == shown);
    (event, data)
}

/// The lines for an event whose data holds the given value.
pub fn render_event(event: &str, data: Option<&Json>) -> (r: Vec<String>)
    ensures
        r.deep_view() == event_lines(event@, match data {
            Some(v) => Some(v@),
            None => None,
        }),
{
    let mut out: Vec<String> = Vec::new();
    if event.is_empty() || same(event, "ping") || same(event, "keep-alive") {
        return out;
    }
    let ghost tree = match data {
        Some(v) => Some(v@),
        None => None,
    };
    let message = match data {
        Some(v) => v.get_str("message"),
        None => None,
    };
    let mut line = "  ▸ ".to_owned().concat(event);
    if let Some(m) = message {
        if !m.is_empty() {
            line = line.concat(": ").concat(m);
        }
    }
    assert(line@ == event_line(event@, tree));
    out.push(line);
    assert(out.deep_view() == seq![event_line(event@, tree)]);
    if let Some(v) = data {
        if let Some(coords) = v.get("coords") {
            push_coords(&mut out, coords);
        }
    }
    out
}

/// Appends the lines for the coordinates of an instance.
fn push_coords(out: &mut Vec<String>, coords: &Json)
    ensures
        final(out).deep_view() == old(out).deep_view() + (uid_lines(coords@) + endpoint_lines(
            coords@,
        )),
{
    let ghost start = out.deep_view();
    if let Some(uid) = coords.get_str("instance_uid") {
        out.push("      instance_uid: ".to_owned().concat(uid));
    }
    assert(out.deep_view() == start + uid_lines(coords@));
    let ghost before = out.deep_view();
    if let Some(Json::Array(items)) = coords.get("endpoints") {
        proof {
            lemma_array_view(items);
        }
        let endpoints = string_items(items);
        let ghost texts = endpoints.deep_view();
        let ghost shown = endpoint_lines(coords@);
        let mut i: usize = 0;
        assert(before + shown.take(0) == before);
        while i < endpoints.len()
            invariant
                i <= endpoints@.len(),
                endpoints.deep_view() == texts,
                shown == texts.map_values(|e: Seq<char>| endpoint_line(e)),
                out.deep_view() == before + shown.take(i as int),
            decreases endpoints@.len() - i,
        {
            let line = "      endpoint:     ".to_owned().concat(endpoints[i].as_str()).concat(
                "   ← point your MCP client here",
            );
            assert(line@ == shown[i as int]);
            let ghost had = out.deep_view();
            out.push(line);
            assert(out.deep_view() == had.push(shown[i as int]));
            assert(before + shown.take(i + 1) == (before + shown.take(i as int)).push(
                shown[i as int],
            ));
            i += 1;
        }
        assert(shown.take(i as int) == shown);
    }
    assert(out.deep_view() == before + endpoint_lines(coords@));
}

/// The lines for a block.
pub fn print_block(block: &str) -> (r: Vec<String>)
    ensures
        r.deep_view() == block_lines(block@),
{
    let (event, data) = block_fields(block);
    let parsed = match &data {
        Some(d) => parse_json(d.as_str().as_bytes()),
        None => None,
    };
    render_event(event.as_str(), parsed.as_ref())
}

/// Takes in a chunk of the stream: the lines for the blocks that it completes, with `buf` left
/// holding what follows the last of them.
pub fn stream_phases(buf: &mut Vec<u8>, chunk: &[u8]) -> (r: Vec<String>)
    ensures
        final(buf)@ == split_blocks(old(buf)@ + chunk@).1,
        r.deep_view() == blocks_lines(split_blocks(old(buf)@ + chunk@).0),
        (r.deep_view(), final(buf)@) == taken_in(old(buf)@, chunk@),
{
    buf.extend_from_slice(chunk);
    assert(buf@ == old(buf)@ + chunk@);
    let ghost all = split_blocks(buf@);
    let mut out: Vec<String> = Vec::new();
    assert(out.deep_view() + blocks_lines(all.0) == blocks_lines(all.0));
    let mut found = find_double_newline(buf.as_slice());
    while found.is_some()
        invariant
            out.deep_view() + blocks_lines(split_blocks(buf@).0) == blocks_lines(all.0),
            split_blocks(buf@).1 == all.1,
            match found {
                Some(i) => first_break(buf@) == Some(i as nat),
                None => first_break(buf@) is None,
            },
        decreases buf@.len(),
    {
        let pos = found.unwrap();
        proof {
            lemma_first_break(buf@);
        }
        let ghost before = buf@;
        let ghost shown = out.deep_view();
        let text = utf8_text(slice_subrange(buf.as_slice(), 0, pos));
        assert(before.subrange(0, pos as int) == before.take(pos as int));
        assert(pos + 2 <= buf.len());
        let rest = buf.split_off(pos + 2);
        assert(rest@ == before.skip(pos + 2));
        *buf = rest;
        if let Some(s) = text {
            let mut lines = print_block(s.as_str());
            push_all(&mut out, &mut lines);
        }
        assert(out.deep_view() == shown + bytes_lines(before.take(pos as int)));
        assert(split_blocks(before).0.drop_first() == split_blocks(buf@).0);
        found = find_double_newline(buf.as_slice());
    }
    assert(out.deep_view() == blocks_lines(all.0));
    out
}

/// Moves the strings of `more` to the end of `out`.
fn push_all(out: &mut Vec<String>, more: &mut Vec<String>)
    ensures
        final(out).deep_view() == old(out).deep_view() + old(more).deep_view(),
{
    out.append(more);
    assert(out.deep_view() == old(out).deep_view() + old(more).deep_view());
}

/// The lines for what is left in `buf` when the stream closes.
pub fn finish_phases(buf: &Vec<u8>) -> (r: Vec<String>)
    ensures
        r.deep_view() == rest_lines(buf@),
{
    if buf.len() > 0 {
        if let Some(s) = utf8_text(buf.as_slice()) {
            return print_block(s.as_str());
        }
    }
    Vec::new()
}

/// Whether `value` is what follows `name` on the last of the lines that begin with it; without a
/// value no line begins with it.
pub open spec fn carries(lines: Seq<Seq<char>>, name: Seq<char>, value: Option<Seq<char>>) -> bool {
    match value {
        Some(v) => exists|i: int|
            {
                &&& 0 <= i < lines.len()
                &&& #[trigger] lines[i] == name + v
                &&& forall|j: int|
                    i < j < lines.len() ==> !name.is_prefix_of(#[trigger] lines[j])
            },
        None => forall|j: int| 0 <= j < lines.len() ==> !name.is_prefix_of(#[trigger] lines[j]),
    }
}

proof fn lemma_last_field(lines: Seq<Seq<char>>, name: Seq<char>, value: Option<Seq<char>>)
    requires
        carries(lines, name, value),
    ensures
        last_field(lines, name) == value,
    decreases lines.len(),
{
    if lines.len() > 0 {
        let earlier = lines.drop_last();
        let last = lines.len() - 1;
        assert(lines[last] == lines.last());
        match value {
            Some(v) => {
                let i = choose|i: int|
                    {
                        &&& 0 <= i < lines.len()
                        &&& #[trigger] lines[i] == name + v
                        &&& forall|j: int|
                            i < j < lines.len() ==> !name.is_prefix_of(#[trigger] lines[j])
                    };
                if i == last {
                    law_prefixes(lines.last(), name, v);
                } else {
                    assert(!name.is_prefix_of(lines[last]));
                    assert(earlier[i] == lines[i]);
                    assert forall|j: int| i < j < earlier.len() implies !name.is_prefix_of(
                        #[trigger] earlier[j],
                    ) by {
                        assert(earlier[j] == lines[j]);
                    }
                    lemma_last_field(earlier, name, value);
                }
            },
            None => {
                assert(!name.is_prefix_of(lines[last]));
                assert forall|j: int| 0 <= j < earlier.len() implies !name.is_prefix_of(
                    #[trigger] earlier[j],
                ) by {
                    assert(earlier[j] == lines[j]);
                }
                lemma_last_field(earlier, name, value);
            },
        }
    }
}

/// A block stands for the event that its last event line names, with the JSON that its last data
/// line holds: what its other lines hold does not matter.
pub proof fn law_blocks(block: Seq<char>, event: Option<Seq<char>>, data: Option<Seq<char>>)
    requires
        carries(lines_of(block), "event: "@, event),
        carries(lines_of(block), "data: "@, data),
    ensures
        block_lines(block) == match (event, data) {
            (Some(e), Some(d)) => event_lines(e, json_parse(encode_utf8(d))),
            (Some(e), None) => event_lines(e, None),
            (None, _) => Seq::empty(),
        },
{
    lemma_last_field(lines_of(block), "event: "@, event);
    lemma_last_field(lines_of(block), "data: "@, data);
}

/// An event without a name, or sent to keep the stream alive, has no line. Every other has one with
/// its name, and with its message where that is a string with anything in it.
pub proof fn law_first_lines(event: Seq<char>, data: Option<JsonTree>, message: Seq<char>)
    ensures
        event.len() == 0 || event == "ping"@ || event == "keep-alive"@ <==> event_lines(
            event,
            data,
        ).len() == 0,
        event_lines(event, data).len() > 0 ==> {
            if data matches Some(v) && tree_get(v, "message"@) == Some(JsonTree::Str(message))
                && message.len() > 0 {
                event_lines(event, data)[0] == "  ▸ "@ + event + ": "@ + message
            } else {
                !(data matches Some(v) && tree_get(v, "message"@) matches Some(JsonTree::Str(m))
                    && m.len() > 0) ==> event_lines(event, data)[0] == "  ▸ "@ + event
            }
        },
{
}

/// A shown event whose data has coordinates with an identifier tells it on its second line, and
/// after that every string among their endpoints, in order, a line for each and no other line. The
/// other members of the data do not matter.
pub proof fn law_coordinates(
    event: Seq<char>,
    data: JsonTree,
    coords: JsonTree,
    uid: Option<Seq<char>>,
    endpoints: Seq<JsonTree>,
)
    requires
        event.len() > 0,
        event != "ping"@,
        event != "keep-alive"@,
        tree_get(data, "coords"@) == Some(coords),
        match uid {
            Some(u) => tree_get(coords, "instance_uid"@) == Some(JsonTree::Str(u)),
            None => !(tree_get(coords, "instance_uid"@) matches Some(JsonTree::Str(_))),
        },
        tree_get(coords, "endpoints"@) == Some(JsonTree::Array(endpoints)) || endpoints.len() == 0
            && !(tree_get(coords, "endpoints"@) matches Some(JsonTree::Array(_))),
    ensures
        ({
            let lines = event_lines(event, Some(data));
            let texts = strings_of(endpoints);
            let first: int = if uid is Some { 2 } else { 1 };
            &&& lines.len() == first + texts.len()
            &&& uid matches Some(u) ==> lines[1] == "      instance_uid: "@ + u
            &&& forall|k: int|
                0 <= k < texts.len() ==> #[trigger] lines[first + k] == "      endpoint:     "@
                    + texts[k] + "   ← point your MCP client here"@
        }),
{
    let texts = strings_of(endpoints);
    assert(endpoints.len() == 0 ==> texts.len() == 0);
    let shown = endpoint_lines(coords);
    assert(shown.len() == texts.len());
    let lines = event_lines(event, Some(data));
    let first: int = if uid is Some { 2 } else { 1 };
    assert(uid_lines(coords).len() == first - 1);
    assert forall|k: int| 0 <= k < texts.len() implies #[trigger] lines[first + k]
        == "      endpoint:     "@ + texts[k] + "   ← point your MCP client here"@ by {
        assert(lines[first + k] == shown[k]);
    }
}

/// The lines after the first depend on the coordinates alone: not on the event, its message or any
/// other member of its data. Without coordinates there are none.
pub proof fn law_later_lines(
    event: Seq<char>,
    data: Option<JsonTree>,
    other: Seq<char>,
    other_data: Option<JsonTree>,
)
    requires
        event_lines(event, data).len() > 0,
        event_lines(other, other_data).len() > 0,
        (match data {
            Some(v) => tree_get(v, "coords"@),
            None => None,
        }) == (match other_data {
            Some(v) => tree_get(v, "coords"@),
            None => None,
        }),
    ensures
        event_lines(event, data).skip(1) == event_lines(other, other_data).skip(1),
        (data matches Some(v) ==> tree_get(v, "coords"@) is None) ==> event_lines(event, data).len()
            == 1,
{
    assert(event_lines(event, data).skip(1) =~= coords_lines(data));
    assert(event_lines(other, other_data).skip(1) =~= coords_lines(other_data));
}

/// The bytes of a text are shown as the text is, and bytes that are no text are not shown.
pub proof fn law_block_bytes(text: Seq<char>, bytes: Seq<u8>)
    ensures
        bytes_lines(encode_utf8(text)) == block_lines(text),
        !valid_utf8(bytes) ==> bytes_lines(bytes).len() == 0,
        bytes.len() > 0 ==> rest_lines(bytes) == bytes_lines(bytes),
{
    encode_utf8_valid_utf8(text);
    encode_utf8_decode_utf8(text);
}

/// Each block is shown, in order.
pub proof fn law_blocks_in_order(a: Seq<Seq<u8>>, b: Seq<Seq<u8>>, block: Seq<u8>)
    ensures
        blocks_lines(a + b) == blocks_lines(a) + blocks_lines(b),
        blocks_lines(seq![block]) == bytes_lines(block),
        blocks_lines(Seq::empty()) == Seq::<Seq<char>>::empty(),
{
    lemma_blocks_lines_concat(a, b);
    assert(seq![block].drop_first() =~= Seq::empty());
    assert(blocks_lines(seq![block].drop_first()) =~= Seq::empty());
    assert(blocks_lines(seq![block]) =~= bytes_lines(block));
}

/// Blocks, each with the two line feeds that end it.
pub open spec fn ended(blocks: Seq<Seq<u8>>) -> Seq<u8>
    decreases blocks.len(),
{
    if blocks.len() == 0 {
        Seq::empty()
    } else {
        blocks[0] + seq![10u8, 10u8] + ended(blocks.drop_first())
    }
}

/// Nothing of a stream is lost: the blocks, each with its end, and the rest make it up, and no block
/// holds what ends one.
pub proof fn law_nothing_is_lost(buf: Seq<u8>)
    ensures
        ended(split_blocks(buf).0) + split_blocks(buf).1 == buf,
        forall|k: int, j: int|
            0 <= k < split_blocks(buf).0.len() && 0 <= j < split_blocks(buf).0[k].len() - 1 ==> !(
            #[trigger] split_blocks(buf).0[k][j] == 10 && split_blocks(buf).0[k][j + 1] == 10),
        forall|j: int|
            0 <= j < split_blocks(buf).1.len() - 1 ==> !(#[trigger] split_blocks(buf).1[j] == 10
                && split_blocks(buf).1[j + 1] == 10),
    decreases buf.len(),
{
    lemma_first_break(buf);
    match first_break(buf) {
        Some(i) => {
            let tail = buf.skip(i as int + 2);
            law_nothing_is_lost(tail);
            let (blocks, rest) = split_blocks(tail);
            let all = split_blocks(buf).0;
            assert(all.drop_first() =~= blocks);
            assert(all[0] == buf.take(i as int));
            assert(ended(all) + rest =~= all[0] + seq![10u8, 10u8] + (ended(blocks) + rest));
            assert(all[0] + seq![10u8, 10u8] + tail =~= buf);
            assert forall|k: int, j: int| 0 <= k < all.len() && 0 <= j < all[k].len() - 1 implies !(
            #[trigger] all[k][j] == 10 && all[k][j + 1] == 10) by {
                if k == 0 {
                    assert(all[0][j] == buf[j] && all[0][j + 1] == buf[j + 1]);
                } else {
                    assert(all[k] == blocks[k - 1]);
                    assert(blocks[k - 1][j] == all[k][j]);
                }
            }
        },
        None => {
            assert(ended(split_blocks(buf).0) + buf =~= buf);
        },
    }
}

/// A block ends at the first two line feeds that follow each other.
pub proof fn law_first_break(buf: Seq<u8>)
    ensures
        match first_break(buf) {
            Some(i) => i + 2 <= buf.len() && buf[i as int] == 10 && buf[i as int + 1] == 10 && forall|j: int|
                0 <= j < i ==> !(#[trigger] buf[j] == 10 && buf[j + 1] == 10),
            None => forall|j: int|
                0 <= j < buf.len() - 1 ==> !(#[trigger] buf[j] == 10 && buf[j + 1] == 10),
        },
{
    lemma_first_break(buf);
}

/// The name and the data of a block are those of its last event line and of its last data line, each
/// whatever the other is. A block without an event line has no name, and one without a data line no
/// data.
pub proof fn law_block_fields(block: Seq<char>, event: Option<Seq<char>>, data: Option<Seq<char>>)
    ensures
        carries(lines_of(block), "event: "@, event) ==> match event {
            Some(e) => block_event(block) == e,
            None => block_event(block).len() == 0,
        },
        carries(lines_of(block), "data: "@, data) ==> block_data(block) == data,
{
    if carries(lines_of(block), "event: "@, event) {
        lemma_last_field(lines_of(block), "event: "@, event);
    }
    if carries(lines_of(block), "data: "@, data) {
        lemma_last_field(lines_of(block), "data: "@, data);
    }
}

/// What a chunk shows of a stream and what it leaves to come, given what was left before.
pub open spec fn taken_in(buf: Seq<u8>, chunk: Seq<u8>) -> (Seq<Seq<char>>, Seq<u8>) {
    (blocks_lines(split_blocks(buf + chunk).0), split_blocks(buf + chunk).1)
}

/// Two chunks one after the other show, and leave, what they do as one. A chunk that ends no block shows
/// nothing and is left whole.
pub proof fn law_chunks_join(buf: Seq<u8>, a: Seq<u8>, b: Seq<u8>)
    ensures
        ({
            let (first, left) = taken_in(buf, a);
            let (second, rest) = taken_in(left, b);
            taken_in(buf, a + b) == (first + second, rest)
        }),
        first_break(buf + a) is None ==> taken_in(buf, a) == (Seq::<Seq<char>>::empty(), buf + a),
{
    let left = taken_in(buf, a).1;
    law_split_blocks_resumes(buf + a, b);
    assert(buf + (a + b) =~= (buf + a) + b);
    lemma_blocks_lines_concat(split_blocks(buf + a).0, split_blocks(left + b).0);
}

/// A block is shown as soon as the chunk that ends it is in.
pub proof fn law_blocks_are_shown_at_once(buf: Seq<u8>, block: Seq<u8>, a: Seq<u8>, rest: Seq<u8>)
    requires
        buf + a == block + seq![10u8, 10u8] + rest,
        forall|j: int|
            0 <= j < block.len() ==> !(#[trigger] (buf + a)[j] == 10 && (buf + a)[j + 1] == 10),
        first_break(rest) is None,
    ensures
        taken_in(buf, a) == (bytes_lines(block), rest),
{
    let all = buf + a;
    assert(all[block.len() as int] == 10 && all[block.len() as int + 1] == 10);
    lemma_first_break_unique(all, block.len() as int);
    assert(all.take(block.len() as int) =~= block);
    assert(all.skip(block.len() as int + 2) =~= rest);
    assert(split_blocks(rest).0 =~= Seq::empty());
    assert(split_blocks(all).0 =~= seq![block]);
    law_blocks_in_order(Seq::empty(), Seq::empty(), block);
}

} // verus!
