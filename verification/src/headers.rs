//! The headers of the request and of the response.

use http::header::{InvalidHeaderValue, MaxSizeReached, ToStrError};
use http::{HeaderMap, HeaderName, HeaderValue};
use vstd::prelude::*;
use vstd::utf8::encode_utf8;

verus! {

/// The outside type `http::HeaderMap`.
#[verifier::external_type_specification]
#[verifier::external_body]
#[verifier::reject_recursive_types(T)]
pub struct ExHeaderMap<T>(HeaderMap<T>);

/// The outside type `http::HeaderValue`.
#[verifier::external_type_specification]
#[verifier::external_body]
pub struct ExHeaderValue(HeaderValue);

/// The outside type `http::header::InvalidHeaderValue`.
#[verifier::external_type_specification]
#[verifier::external_body]
pub struct ExInvalidHeaderValue(InvalidHeaderValue);

/// The outside type `http::header::ToStrError`.
#[verifier::external_type_specification]
#[verifier::external_body]
pub struct ExToStrError(ToStrError);

/// The outside type `http::HeaderName`.
#[verifier::external_type_specification]
#[verifier::external_body]
pub struct ExHeaderName(HeaderName);

/// The outside type `http::header::MaxSizeReached`.
#[verifier::external_type_specification]
#[verifier::external_body]
pub struct ExMaxSizeReached(MaxSizeReached);

/// What a header map holds: for each header name, in lower case, the bytes of its values in
/// order.
pub uninterp spec fn header_contents(headers: HeaderMap) -> Map<Seq<char>, Seq<Seq<u8>>>;

/// The bytes of a header value.
pub uninterp spec fn header_bytes(value: HeaderValue) -> Seq<u8>;

/// The text of a header name, which is in lower case.
pub uninterp spec fn header_name(name: HeaderName) -> Seq<char>;

/// Up to how many header names a map is sure to take one more. Its hash table has at most 32,768
/// places; where names collide it has to double early, once a fifth of its places is taken. With
/// more names than this it depends on the names, and on chance, whether the map takes another.
pub const MAX_HEADER_NAMES: usize = 6553;

/// A short header name in lower case.
pub open spec fn is_plain_header_name(name: Seq<char>) -> bool {
    &&& 1 <= name.len() <= 64
    &&& forall|i: int|
        0 <= i < name.len() ==> {
            ||| 'a' <= #[trigger] name[i] <= 'z'
            ||| '0' <= name[i] <= '9'
            ||| name[i] == '-'
        }
}

/// A byte that may stand in a header value.
pub open spec fn is_header_byte(byte: u8) -> bool {
    byte >= 32 && byte != 127 || byte == 9
}

/// A byte of a header value that is read as text.
pub open spec fn is_visible_byte(byte: u8) -> bool {
    byte >= 32 && byte < 127 || byte == 9
}

/// The characters with these ASCII codes.
pub open spec fn ascii_text(bytes: Seq<u8>) -> Seq<char> {
    bytes.map_values(|byte: u8| byte as char)
}

/// `http::HeaderValue::from_str` takes a text of which every byte may stand in a header value,
/// and keeps its bytes.
pub assume_specification[ HeaderValue::from_str ](src: &str) -> (result: Result<
    HeaderValue,
    InvalidHeaderValue,
>)
    ensures
        result is Ok <==> forall|i: int|
            0 <= i < encode_utf8(src@).len() ==> is_header_byte(#[trigger] encode_utf8(src@)[i]),
        result is Ok ==> header_bytes(result->Ok_0) == encode_utf8(src@),
;

/// `http::HeaderValue::to_str` gives the value as text where all its bytes are visible ASCII
/// characters, spaces or tabs.
pub assume_specification[ HeaderValue::to_str ](value: &HeaderValue) -> (result: Result<
    &str,
    ToStrError,
>)
    ensures
        result is Ok <==> forall|i: int|
            0 <= i < header_bytes(*value).len() ==> is_visible_byte(
                #[trigger] header_bytes(*value)[i],
            ),
        result is Ok ==> result->Ok_0@ == ascii_text(header_bytes(*value)),
;

/// `http::HeaderName::from_static` makes a name of a text that is one already. It panics on a
/// text that is no header name in lower case.
pub assume_specification[ HeaderName::from_static ](src: &'static str) -> (name: HeaderName)
    requires
        is_plain_header_name(src@),
    ensures
        header_name(name) == src@,
;

/// Calls `http::HeaderMap::get`, which finds the first value of a header.
#[verifier::external_body]
fn first_value<'a>(headers: &'a HeaderMap, name: &str) -> (value: Option<&'a HeaderValue>)
    requires
        is_plain_header_name(name@),
    ensures
        value is Some <==> header_contents(*headers).contains_key(name@),
        value is Some ==> header_contents(*headers)[name@].len() > 0 && header_bytes(*value->0)
            == header_contents(*headers)[name@][0],
{
    headers.get(name)
}

/// The bytes of header values.
pub open spec fn all_bytes(values: Seq<HeaderValue>) -> Seq<Seq<u8>> {
    values.map_values(|value: HeaderValue| header_bytes(value))
}

/// The texts of header names.
pub open spec fn all_names(names: Seq<&HeaderName>) -> Seq<Seq<char>> {
    names.map_values(|name: &HeaderName| header_name(*name))
}

/// Calls `http::HeaderMap::keys`, which lists the header names, each of them once.
#[verifier::external_body]
fn names_of<'a>(headers: &'a HeaderMap) -> (names: Vec<&'a HeaderName>)
    ensures
        all_names(names@).no_duplicates(),
        all_names(names@).to_set() == header_contents(*headers).dom(),
{
    headers.keys().collect()
}

/// Calls `http::HeaderMap::get_all`, which lists the values of a header in order. A header that is
/// there has a value.
#[verifier::external_body]
fn values_of(headers: &HeaderMap, name: &HeaderName) -> (values: Vec<HeaderValue>)
    requires
        header_contents(*headers).contains_key(header_name(*name)),
    ensures
        values.len() > 0,
        all_bytes(values@) == header_contents(*headers)[header_name(*name)],
{
    headers.get_all(name).iter().cloned().collect()
}

/// Calls `http::HeaderMap::try_insert`, which makes a value the only value of a header, and
/// leaves the headers as they are where the map would have to grow beyond its size limit. With
/// more than [`MAX_HEADER_NAMES`] names it is left open whether it would: that depends on how the
/// names hash, under a seed that may be drawn at random.
#[verifier::external_body]
fn set_value(headers: &mut HeaderMap, name: &HeaderName, value: HeaderValue) -> (result: Result<
    Option<HeaderValue>,
    MaxSizeReached,
>)
    ensures
        header_contents(*old(headers)).len() <= MAX_HEADER_NAMES ==> result is Ok,
        header_contents(*final(headers)).dom().finite(),
        header_contents(*final(headers)) == match result {
            Ok(_) => header_contents(*old(headers)).insert(
                header_name(*name),
                seq![header_bytes(value)],
            ),
            Err(_) => header_contents(*old(headers)),
        },
{
    headers.try_insert(name, value)
}

/// Calls `http::HeaderMap::try_append`, which adds a value after those that a header has, and
/// leaves the headers as they are where the map would have to grow beyond its size limit. With
/// more than [`MAX_HEADER_NAMES`] names it is left open whether it would: that depends on how the
/// names hash, under a seed that may be drawn at random.
#[verifier::external_body]
fn add_value(headers: &mut HeaderMap, name: &HeaderName, value: HeaderValue) -> (result: Result<
    bool,
    MaxSizeReached,
>)
    requires
        header_contents(*old(headers)).contains_key(header_name(*name)),
    ensures
        header_contents(*old(headers)).len() <= MAX_HEADER_NAMES ==> result is Ok,
        header_contents(*final(headers)).dom().finite(),
        header_contents(*final(headers)) == match result {
            Ok(_) => header_contents(*old(headers)).insert(
                header_name(*name),
                header_contents(*old(headers))[header_name(*name)].push(header_bytes(value)),
            ),
            Err(_) => header_contents(*old(headers)),
        },
{
    headers.try_append(name, value)
}

/// Whether the text can be the value of a header.
pub open spec fn is_header_text(text: Seq<char>) -> bool {
    forall|i: int|
        0 <= i < encode_utf8(text).len() ==> is_header_byte(#[trigger] encode_utf8(text)[i])
}

/// The headers with this header set, where the text can be its value; else as they were.
pub open spec fn with_header(
    headers: Map<Seq<char>, Seq<Seq<u8>>>,
    name: Seq<char>,
    text: Seq<char>,
) -> Map<Seq<char>, Seq<Seq<u8>>> {
    if is_header_text(text) {
        headers.insert(name, seq![encode_utf8(text)])
    } else {
        headers
    }
}

/// The headers with this header set, where there is a text and it can be the header's value.
pub open spec fn with_optional_header(
    headers: Map<Seq<char>, Seq<Seq<u8>>>,
    name: Seq<char>,
    text: Option<Seq<char>>,
) -> Map<Seq<char>, Seq<Seq<u8>>> {
    match text {
        Some(text) => with_header(headers, name, text),
        None => headers,
    }
}

/// The headers of a request: the caller's, then the request id, then those of the session,
/// then the name of the subagent that asks. What comes later takes the place of what came
/// before.
pub open spec fn request_header_contents(
    extra: Map<Seq<char>, Seq<Seq<u8>>>,
    thread_id: Option<Seq<char>>,
    session: Map<Seq<char>, Seq<Seq<u8>>>,
    subagent: Option<Seq<char>>,
) -> Map<Seq<char>, Seq<Seq<u8>>> {
    with_optional_header(
        with_optional_header(extra, "x-client-request-id"@, thread_id).union_prefer_right(session),
        "x-openai-subagent"@,
        subagent,
    )
}

/// The text of a header: its first value, where all of that is visible ASCII.
pub open spec fn header_text(headers: Map<Seq<char>, Seq<Seq<u8>>>, name: Seq<char>) -> Option<
    Seq<char>,
> {
    if headers.contains_key(name) && forall|i: int|
        0 <= i < headers[name][0].len() ==> is_visible_byte(#[trigger] headers[name][0][i]) {
        Some(ascii_text(headers[name][0]))
    } else {
        None
    }
}

/// One more header is at most one more name.
proof fn lemma_one_more(
    headers: Map<Seq<char>, Seq<Seq<u8>>>,
    name: Seq<char>,
    values: Seq<Seq<u8>>,
)
    requires
        headers.insert(name, values).dom().finite(),
    ensures
        headers.dom().finite(),
        headers.insert(name, values).len() <= headers.len() + 1,
        headers.contains_key(name) ==> headers.insert(name, values).len() == headers.len(),
{
    let more = headers.insert(name, values).dom();
    assert(headers.dom().subset_of(more));
    vstd::set_lib::lemma_set_subset_finite(more, headers.dom());
}

/// Sets a header, where the text can be its value. Tells whether the map took it.
fn insert_header(headers: &mut HeaderMap, name: &'static str, text: &str) -> (taken: bool)
    requires
        is_plain_header_name(name@),
    ensures
        header_contents(*old(headers)).len() <= MAX_HEADER_NAMES ==> taken,
        taken ==> header_contents(*final(headers)) == with_header(
            header_contents(*old(headers)),
            name@,
            text@,
        ),
        taken ==> header_contents(*final(headers)).len() <= header_contents(*old(headers)).len()
            + 1,
{
    let ghost before = header_contents(*headers);
    match HeaderValue::from_str(text) {
        Ok(value) => {
            let name = HeaderName::from_static(name);
            match set_value(headers, &name, value) {
                Ok(_) => {
                    proof {
                        lemma_one_more(before, header_name(name), seq![header_bytes(value)]);
                    }
                    true
                },
                Err(_) => false,
            }
        },
        Err(_) => true,
    }
}

/// Gives a header these values in place of those it had. Tells whether the map took them.
fn set_values(headers: &mut HeaderMap, name: &HeaderName, values: Vec<HeaderValue>) -> (taken: bool)
    requires
        values.len() > 0,
    ensures
        header_contents(*old(headers)).len() < MAX_HEADER_NAMES ==> taken,
        taken ==> header_contents(*final(headers)) == header_contents(*old(headers)).insert(
            header_name(*name),
            all_bytes(values@),
        ),
        taken ==> header_contents(*final(headers)).dom().finite(),
        taken ==> header_contents(*final(headers)).len() <= header_contents(*old(headers)).len()
            + 1,
{
    let ghost before = header_contents(*headers);
    let ghost key = header_name(*name);
    let ghost items = values@;
    let mut first: bool = true;
    assert(all_bytes(items.take(0)) == Seq::<Seq<u8>>::empty());
    for value in iter: values
        invariant
            iter.seq() == items,
            key == header_name(*name),
            first == (iter.index() == 0),
            first ==> header_contents(*headers) == before,
            !first ==> {
                &&& header_contents(*headers) == before.insert(
                    key,
                    all_bytes(items.take(iter.index() as int)),
                )
                &&& header_contents(*headers).dom().finite()
                &&& header_contents(*headers).len() <= before.len() + 1
            },
            before == header_contents(*old(headers)),
    {
        let ghost current = header_contents(*headers);
        let ghost taken = items.take(iter.index() as int);
        let ghost more = items.take(iter.index() + 1);
        proof {
            assert(more == taken.push(value));
            assert(all_bytes(more) == all_bytes(taken).push(header_bytes(value)));
        }
        if first {
            match set_value(headers, name, value) {
                Ok(_) => {
                    proof {
                        assert(all_bytes(more) == seq![header_bytes(value)]);
                        lemma_one_more(current, key, seq![header_bytes(value)]);
                    }
                },
                Err(_) => {
                    return false;
                },
            }
            first = false;
        } else {
            match add_value(headers, name, value) {
                Ok(_) => {
                    proof {
                        lemma_one_more(current, key, all_bytes(more));
                        assert(header_contents(*headers) == before.insert(key, all_bytes(more)));
                    }
                },
                Err(_) => {
                    return false;
                },
            }
        }
    }
    assert(items.take(items.len() as int) == items);
    true
}

/// The headers with those of another map that have these names, in place of those they had.
spec fn with_listed(
    headers: Map<Seq<char>, Seq<Seq<u8>>>,
    more: Map<Seq<char>, Seq<Seq<u8>>>,
    names: Seq<Seq<char>>,
) -> Map<Seq<char>, Seq<Seq<u8>>>
    decreases names.len(),
{
    if names.len() == 0 {
        headers
    } else {
        with_listed(headers, more, names.drop_last()).insert(names.last(), more[names.last()])
    }
}

/// What the headers hold under a name once those with the listed names have been set.
proof fn lemma_with_listed(
    headers: Map<Seq<char>, Seq<Seq<u8>>>,
    more: Map<Seq<char>, Seq<Seq<u8>>>,
    names: Seq<Seq<char>>,
    name: Seq<char>,
)
    ensures
        ({
            let all = with_listed(headers, more, names);
            &&& all.contains_key(name) <==> headers.contains_key(name) || names.contains(name)
            &&& names.contains(name) ==> all[name] == more[name]
            &&& !names.contains(name) && headers.contains_key(name) ==> all[name] == headers[name]
        }),
    decreases names.len(),
{
    if names.len() > 0 {
        let earlier = names.drop_last();
        lemma_with_listed(headers, more, earlier, name);
        if names.contains(name) {
            let k = names.index_of(name);
            if k < earlier.len() {
                assert(earlier[k] == name);
            }
        }
        if earlier.contains(name) {
            assert(names[earlier.index_of(name)] == name);
        }
        assert(names[names.len() - 1] == names.last());
    }
}

/// Takes over the headers of another map: the values of a header in that map take the place of
/// those it had. Tells whether the map took them all.
fn set_all(headers: &mut HeaderMap, more: &HeaderMap) -> (taken: bool)
    ensures
        header_contents(*old(headers)).len() + header_contents(*more).len() <= MAX_HEADER_NAMES
            ==> taken,
        taken ==> header_contents(*final(headers)) == header_contents(
            *old(headers),
        ).union_prefer_right(header_contents(*more)),
        taken ==> header_contents(*final(headers)).len() <= header_contents(*old(headers)).len()
            + header_contents(*more).len(),
{
    let ghost before = header_contents(*headers);
    let ghost added = header_contents(*more);
    let names = names_of(more);
    let ghost keys = all_names(names@);
    proof {
        keys.unique_seq_to_set();
    }
    let mut next: usize = 0;
    while next < names.len()
        invariant
            next <= names.len(),
            keys == all_names(names@),
            keys.to_set() == added.dom(),
            keys.len() == added.len(),
            added == header_contents(*more),
            before == header_contents(*old(headers)),
            header_contents(*headers) == with_listed(before, added, keys.take(next as int)),
            header_contents(*headers).len() <= before.len() + next,
        decreases names.len() - next,
    {
        let name = names[next];
        proof {
            assert(keys[next as int] == header_name(*name));
            assert(keys.to_set().contains(keys[next as int]));
            assert(keys.take(next + 1).drop_last() == keys.take(next as int));
        }
        let values = values_of(more, name);
        if !set_values(headers, name, values) {
            return false;
        }
        next += 1;
    }
    proof {
        assert(keys.take(keys.len() as int) == keys);
        let all = with_listed(before, added, keys);
        let union = before.union_prefer_right(added);
        assert forall|name: Seq<char>|
            (#[trigger] all.contains_key(name) <==> union.contains_key(name)) && (all.contains_key(
                name,
            ) ==> all[name] == union[name]) by {
            lemma_with_listed(before, added, keys, name);
            assert(keys.to_set().contains(name) <==> keys.contains(name));
        }
        assert(all.dom() == union.dom());
        assert(all == union);
    }
    true
}

/// Gathers the headers of a request. There is nothing where the map refuses to take them, which
/// it does not where there are few enough of them.
pub fn request_headers(
    extra_headers: HeaderMap,
    thread_id: Option<&str>,
    session_headers: HeaderMap,
    subagent: Option<&str>,
) -> (headers: Option<HeaderMap>)
    ensures
        header_contents(extra_headers).len() + header_contents(session_headers).len() + 1
            <= MAX_HEADER_NAMES ==> headers is Some,
        headers is Some ==> header_contents(headers->0) == request_header_contents(
            header_contents(extra_headers),
            thread_id.deep_view(),
            header_contents(session_headers),
            subagent.deep_view(),
        ),
{
    let mut headers = extra_headers;
    proof {
        reveal_strlit("x-client-request-id");
        reveal_strlit("x-openai-subagent");
    }
    if let Some(thread_id) = thread_id {
        if !insert_header(&mut headers, "x-client-request-id", thread_id) {
            return None;
        }
    }
    if !set_all(&mut headers, &session_headers) {
        return None;
    }
    if let Some(subagent) = subagent {
        if !insert_header(&mut headers, "x-openai-subagent", subagent) {
            return None;
        }
    }
    Some(headers)
}

/// The headers that come later win: the subagent over those of the session, those of the session
/// over the request id, and the request id over the caller's. All others stay.
pub proof fn law_later_headers_win(
    extra: Map<Seq<char>, Seq<Seq<u8>>>,
    thread_id: Option<Seq<char>>,
    session: Map<Seq<char>, Seq<Seq<u8>>>,
    subagent: Option<Seq<char>>,
    name: Seq<char>,
)
    ensures
        ({
            let all = request_header_contents(extra, thread_id, session, subagent);
            let values = if all.contains_key(name) {
                Some(all[name])
            } else {
                None
            };
            values == if name == "x-openai-subagent"@ && subagent is Some && is_header_text(
                subagent->0,
            ) {
                Some(seq![encode_utf8(subagent->0)])
            } else if session.contains_key(name) {
                Some(session[name])
            } else if name == "x-client-request-id"@ && thread_id is Some && is_header_text(
                thread_id->0,
            ) {
                Some(seq![encode_utf8(thread_id->0)])
            } else if extra.contains_key(name) {
                Some(extra[name])
            } else {
                None
            }
        }),
{
}

/// A text can be the value of a header exactly where it has no control character but the tab.
pub proof fn law_header_values(text: Seq<char>)
    ensures
        is_header_text(text) <==> forall|k: int|
            0 <= k < encode_utf8(text).len() ==> {
                let byte = #[trigger] encode_utf8(text)[k];
                byte == 9 || 32 <= byte <= 126 || 128 <= byte
            },
{
    assert forall|k: int| 0 <= k < encode_utf8(text).len() implies (is_header_byte(
        #[trigger] encode_utf8(text)[k],
    ) <==> {
        let byte = encode_utf8(text)[k];
        byte == 9 || 32 <= byte <= 126 || 128 <= byte
    }) by {}
}

/// Setting a header, where the text can be its value, makes the text its only value, and changes no
/// other header.
pub proof fn law_header_is_set(
    headers: Map<Seq<char>, Seq<Seq<u8>>>,
    name: Seq<char>,
    text: Seq<char>,
    other: Seq<char>,
)
    ensures
        ({
            let set = with_header(headers, name, text);
            &&& is_header_text(text) ==> set.contains_key(name) && set[name] == seq![
                encode_utf8(text),
            ]
            &&& !is_header_text(text) || other != name ==> (set.contains_key(other)
                <==> headers.contains_key(other)) && (headers.contains_key(other) ==> set[other]
                == headers[other])
            &&& with_optional_header(headers, name, Some(text)) == set
            &&& with_optional_header(headers, name, None) == headers
        }),
{
}

/// A header is read as the characters of its first value, one per byte, and not at all where it is
/// not there or where a byte is no visible ASCII character, no space and no tab.
pub proof fn law_header_is_read(headers: Map<Seq<char>, Seq<Seq<u8>>>, name: Seq<char>)
    ensures
        !headers.contains_key(name) ==> header_text(headers, name) is None,
        headers.contains_key(name) ==> {
            let value = headers[name][0];
            let text = header_text(headers, name);
            &&& text is Some <==> forall|k: int|
                0 <= k < value.len() ==> 32 <= #[trigger] value[k] <= 126 || value[k] == 9
            &&& text is Some ==> text->0.len() == value.len() && forall|k: int|
                0 <= k < value.len() ==> (#[trigger] text->0[k]) as int == value[k]
        },
{
    if headers.contains_key(name) {
        let value = headers[name][0];
        assert forall|k: int| 0 <= k < value.len() implies (is_visible_byte(#[trigger] value[k])
            <==> 32 <= value[k] <= 126 || value[k] == 9) by {}
        if header_text(headers, name) is Some {
            assert forall|k: int| 0 <= k < value.len() implies (#[trigger] header_text(
                headers,
                name,
            )->0[k]) as int == value[k] by {
                assert(is_visible_byte(value[k]));
            }
        }
    }
}

/// Asks for the response as a stream of server-sent events. There is nothing where the map
/// refuses to take one more header, which it does not where there are few enough of them.
pub fn accept_event_stream(headers: HeaderMap) -> (accepting: Option<HeaderMap>)
    ensures
        header_contents(headers).len() <= MAX_HEADER_NAMES ==> accepting is Some,
        accepting is Some ==> header_contents(accepting->0) == header_contents(headers).insert(
            "accept"@,
            seq![encode_utf8("text/event-stream"@)],
        ),
{
    let mut headers = headers;
    proof {
        reveal_strlit("accept");
        reveal_strlit("text/event-stream");
        vstd::utf8::is_ascii_chars_encode_utf8("text/event-stream"@);
    }
    if insert_header(&mut headers, "accept", "text/event-stream") {
        Some(headers)
    } else {
        None
    }
}

/// What the headers of a response tell.
#[derive(Debug, PartialEq, Eq)]
pub struct StreamHeaders {
    /// The id under which the endpoint knows the request.
    pub upstream_request_id: Option<String>,
    /// The state that is to be sent back with the next request of the turn.
    pub turn_state: Option<String>,
}

/// The text of a header, where it has one.
fn read_header(headers: &HeaderMap, name: &'static str) -> (text: Option<String>)
    requires
        is_plain_header_name(name@),
    ensures
        text.deep_view() == header_text(header_contents(*headers), name@),
{
    match first_value(headers, name) {
        Some(value) => match value.to_str() {
            Ok(text) => Some(text.to_string()),
            Err(_) => None,
        },
        None => None,
    }
}

/// Reads the request id and the turn state from the headers of a response.
pub fn stream_headers(headers: &HeaderMap) -> (read: StreamHeaders)
    ensures
        read.upstream_request_id.deep_view() == header_text(
            header_contents(*headers),
            "x-request-id"@,
        ),
        read.turn_state.deep_view() == header_text(
            header_contents(*headers),
            "x-codex-turn-state"@,
        ),
{
    proof {
        reveal_strlit("x-request-id");
        reveal_strlit("x-codex-turn-state");
    }
    StreamHeaders {
        upstream_request_id: read_header(headers, "x-request-id"),
        turn_state: read_header(headers, "x-codex-turn-state"),
    }
}

} // verus!
