//! Reading inverts writing: a control message that is written by
//! [`RtspRequest::format`](crate::rtsp::RtspRequest::format) or
//! [`RtspResponse::format`](crate::rtsp::RtspResponse::format) is read back
//! with every field as it was.

use crate::rtsp::{
    header_name, header_value, is_header, is_header_named, spec_client_port, spec_format_request,
    spec_format_response, spec_lookup, spec_method, spec_method_name, spec_optional_session,
    spec_parse_request, spec_parse_response, spec_port_text, spec_request, spec_request_headers,
    spec_sequence, spec_session, spec_session_line, spec_status, spec_transport,
    spec_transport_line, spec_transport_value, FormatError, RequestType, RequestView,
    RtspResponse, RTSP_VERSION,
};
use crate::rtsp::lemma_first_empty_is;
use crate::text::{
    is_digit, is_one_line, is_space, is_trimmed, is_word, lemma_decimal, lemma_decimal_is_word,
    lemma_find_char_is, lemma_lines_of_line, lemma_parse_decimal, lemma_trim_of_trimmed,
    lemma_words_of_last, lemma_words_of_word, line_end, matches_ignoring_case, spec_decimal,
    spec_lines, spec_parse_number, spec_split, spec_trim, spec_words,
};
use vstd::prelude::*;

verus! {

/// Whether a request can be written and read back: its resource is a word,
/// and its transport value, if it has one, is trimmed, fits on one line and
/// names the request's client port.
pub open spec fn representable(r: RequestView) -> bool {
    &&& is_word(r.filename)
    &&& match r.transport {
        Some(value) => {
            &&& is_trimmed(value)
            &&& is_one_line(value)
            &&& spec_client_port(value) == Ok::<Option<u16>, FormatError>(r.client_port)
        },
        None => r.client_port is None,
    }
}

/// The separators of the message grammar, character by character.
proof fn lemma_separators()
    ensures
        " "@ == seq![' '],
        "\r\n"@ == line_end(),
        is_space(' '),
{
    reveal_strlit(" ");
    reveal_strlit("\r\n");
    assert(" "@ =~= seq![' ']);
    assert("\r\n"@ =~= line_end());
}

/// Every method name is a word, and stands for its method only.
proof fn lemma_method_names(method: RequestType)
    ensures
        is_word(spec_method_name(method)),
        spec_method(spec_method_name(method)) == Some(method),
{
    reveal_strlit("NEGOTIATE");
    reveal_strlit("START");
    reveal_strlit("PAUSE");
    reveal_strlit("STOP");
    assert("NEGOTIATE"@.len() == 9 && "START"@.len() == 5 && "PAUSE"@.len() == 5 && "STOP"@.len()
        == 4);
    assert("START"@[0] == 'S' && "PAUSE"@[0] == 'P');
    assert("PAUSE"@ != "START"@);
}

/// The version is a word.
proof fn lemma_version()
    ensures
        is_word(RTSP_VERSION@),
{
    reveal_strlit("RTSP/1.0");
}

/// A line made of a label, a colon, a space and a trimmed value is a header
/// with that label as its name and that value.
proof fn lemma_header_line(label: Seq<char>, value: Seq<char>)
    requires
        is_word(label),
        forall|i: int| 0 <= i < label.len() ==> label[i] != ':',
        is_trimmed(value),
    ensures
        is_header(label + seq![':', ' '] + value),
        header_name(label + seq![':', ' '] + value) == label,
        header_value(label + seq![':', ' '] + value) == value,
{
    let line = label + seq![':', ' '] + value;
    let n = label.len();
    assert(line[n as int] == ':');
    assert forall|i: int| 0 <= i < n implies line[i] != ':' by {
        assert(line[i] == label[i]);
    }
    lemma_find_char_is(line, ':', n);
    assert(line.take(n as int) =~= label);
    lemma_trim_of_trimmed(label);
    assert(line.skip(n as int + 1) =~= seq![' '] + value);
    lemma_trim_of_trimmed(value);
}

/// Whether `literal` is a header label of `n` characters, a word without a
/// colon, followed by a colon and a space.
spec fn is_label(literal: Seq<char>, n: int) -> bool {
    &&& 0 < n
    &&& literal.len() == n + 2
    &&& literal == literal.take(n) + seq![':', ' ']
    &&& is_word(literal.take(n))
    &&& forall|i: int| 0 <= i < n ==> literal.take(n)[i] != ':'
}

/// The three header labels, character by character: each is a label that
/// matches its name, and the three names differ in length.
proof fn lemma_labels()
    ensures
        is_label("Sequence: "@, 8),
        is_label("Session: "@, 7),
        is_label("Transport: "@, 9),
        matches_ignoring_case("Sequence: "@.take(8), "sequence"@),
        matches_ignoring_case("Session: "@.take(7), "session"@),
        matches_ignoring_case("Transport: "@.take(9), "transport"@),
        "sequence"@.len() == 8,
        "session"@.len() == 7,
        "transport"@.len() == 9,
{
    reveal_strlit("Sequence: ");
    reveal_strlit("Session: ");
    reveal_strlit("Transport: ");
    reveal_strlit("sequence");
    reveal_strlit("session");
    reveal_strlit("transport");
    assert("Sequence: "@ =~= "Sequence: "@.take(8) + seq![':', ' ']);
    assert("Session: "@ =~= "Session: "@.take(7) + seq![':', ' ']);
    assert("Transport: "@ =~= "Transport: "@.take(9) + seq![':', ' ']);
}

/// What is known of a header line that is written as a label and a value.
proof fn lemma_written_header(literal: Seq<char>, n: int, value: Seq<char>)
    requires
        is_label(literal, n),
        is_trimmed(value),
        is_one_line(value),
    ensures
        is_header(literal + value),
        header_name(literal + value) == literal.take(n),
        header_value(literal + value) == value,
        is_one_line(literal + value),
        (literal + value).len() > 0,
{
    let label = literal.take(n);
    lemma_header_line(label, value);
    let line = literal + value;
    assert(line =~= label + seq![':', ' '] + value);
    assert forall|i: int| 0 <= i < line.len() implies #[trigger] line[i] != '\n' by {
        if i < n {
            assert(line[i] == label[i]);
            assert(!is_space(label[i]));
        } else if i >= n + 2 {
            assert(line[i] == value[i - n - 2]);
        }
    }
}

/// Looking up a name among lines with one more line at the end: the new
/// line counts if it carries the name, else the answer is as before.
proof fn lemma_lookup_push(lines: Seq<Seq<char>>, line: Seq<char>, name: Seq<char>)
    ensures
        spec_lookup(lines.push(line), name) == if is_header_named(line, name) {
            Some(header_value(line))
        } else {
            spec_lookup(lines, name)
        },
{
    assert(lines.push(line).drop_last() =~= lines);
}

/// The request line is read back word by word, and fits on one line.
proof fn lemma_request_line(method: RequestType, resource: Seq<char>)
    requires
        is_word(resource),
    ensures
        spec_words(
            spec_method_name(method) + seq![' '] + resource + seq![' '] + RTSP_VERSION@,
        ) == seq![spec_method_name(method), resource, RTSP_VERSION@],
        is_one_line(spec_method_name(method) + seq![' '] + resource + seq![' '] + RTSP_VERSION@),
{
    lemma_method_names(method);
    lemma_version();
    let m = spec_method_name(method);
    let v = RTSP_VERSION@;
    let line = m + seq![' '] + resource + seq![' '] + v;
    lemma_words_of_last(v);
    lemma_words_of_word(resource, ' ', v);
    lemma_words_of_word(m, ' ', resource + seq![' '] + v);
    assert(line =~= m + seq![' '] + (resource + seq![' '] + v));
    assert(seq![m] + (seq![resource] + seq![v]) =~= seq![m, resource, v]);
    assert forall|i: int| 0 <= i < line.len() implies #[trigger] line[i] != '\n' by {
        if i < m.len() {
            assert(line[i] == m[i]);
            assert(!is_space(m[i]));
        } else if i == m.len() {
        } else if i < m.len() + 1 + resource.len() {
            assert(line[i] == resource[i - m.len() - 1]);
            assert(!is_space(resource[i - m.len() - 1]));
        } else if i == m.len() + 1 + resource.len() {
        } else {
            assert(line[i] == v[i - m.len() - resource.len() - 2]);
            assert(!is_space(v[i - m.len() - resource.len() - 2]));
        }
    }
}

/// The empty line that ends a message is one line, and it is empty.
proof fn lemma_lines_of_end()
    ensures
        spec_lines(line_end()) == seq![Seq::<char>::empty()],
{
    let empty = Seq::<char>::empty();
    lemma_lines_of_line(empty, empty);
    assert(empty + line_end() + empty =~= line_end());
    assert(seq![empty] + spec_lines(empty) =~= seq![empty]);
}

/// The header line that carries an optional value, if there is a value.
spec fn optional_line(label: Seq<char>, value: Option<Seq<char>>) -> Seq<Seq<char>> {
    match value {
        Some(v) => seq![label + v],
        None => Seq::empty(),
    }
}

/// The decimal form of an optional session identifier.
spec fn session_text(session_id: Option<u32>) -> Option<Seq<char>> {
    match session_id {
        Some(id) => Some(spec_decimal(id as nat)),
        None => None,
    }
}

/// The request line as it is written.
spec fn written_request_line(r: RequestView) -> Seq<char> {
    spec_method_name(r.request_type) + seq![' '] + r.filename + seq![' '] + RTSP_VERSION@
}

/// The header lines of a request as they are written.
spec fn written_headers(r: RequestView) -> Seq<Seq<char>> {
    seq!["Sequence: "@ + spec_decimal(r.cseq as nat)] + optional_line(
        "Transport: "@,
        r.transport,
    ) + optional_line("Session: "@, session_text(r.session_id))
}

/// The lines of an optional header line and what follows it.
proof fn lemma_lines_of_optional_header(
    literal: Seq<char>,
    n: int,
    value: Option<Seq<char>>,
    rest: Seq<char>,
)
    requires
        is_label(literal, n),
        value matches Some(v) ==> is_trimmed(v) && is_one_line(v),
    ensures
        spec_lines(
            (match value {
                Some(v) => literal + v + line_end(),
                None => Seq::<char>::empty(),
            }) + rest,
        ) == optional_line(literal, value) + spec_lines(rest),
{
    match value {
        Some(v) => {
            lemma_written_header(literal, n, v);
            lemma_lines_of_line(literal + v, rest);
        },
        None => {
            assert(Seq::<char>::empty() + rest =~= rest);
            assert(Seq::<Seq<char>>::empty() + spec_lines(rest) =~= spec_lines(rest));
        },
    }
}

/// The text of a request, line by line.
proof fn lemma_request_text(r: RequestView)
    ensures
        spec_format_request(r) == written_request_line(r) + line_end() + ("Sequence: "@
            + spec_decimal(r.cseq as nat) + line_end() + (spec_transport_line(r.transport) + (
        spec_session_line(r.session_id) + line_end()))),
{
    lemma_separators();
    let e = line_end();
    let l0 = written_request_line(r);
    let l1 = "Sequence: "@ + spec_decimal(r.cseq as nat);
    let tl = spec_transport_line(r.transport);
    let sl = spec_session_line(r.session_id);
    let head = spec_method_name(r.request_type) + " "@ + r.filename + " "@ + RTSP_VERSION@
        + "\r\n"@;
    assert(head == l0 + e);
    let upper = head + "Sequence: "@ + spec_decimal(r.cseq as nat) + "\r\n"@;
    assert(upper =~= l0 + e + (l1 + e));
    assert(spec_format_request(r) == upper + tl + sl + e);
    assert(upper + tl + sl + e =~= l0 + e + (l1 + e + (tl + (sl + e))));
}

/// The text of a representable request has the lines that were written: the
/// request line, the header lines and an empty line.
proof fn lemma_request_lines(r: RequestView)
    requires
        representable(r),
    ensures
        spec_lines(spec_format_request(r)) == seq![written_request_line(r)] + written_headers(
            r,
        ).push(Seq::<char>::empty()),
{
    lemma_request_text(r);
    lemma_labels();
    lemma_lines_of_end();
    let e = line_end();
    let empty = Seq::<char>::empty();
    let l0 = written_request_line(r);
    let d = spec_decimal(r.cseq as nat);
    let l1 = "Sequence: "@ + d;
    let tl = spec_transport_line(r.transport);
    let sl = spec_session_line(r.session_id);
    let t_lines = optional_line("Transport: "@, r.transport);
    let s_lines = optional_line("Session: "@, session_text(r.session_id));
    assert(spec_lines(sl + e) == s_lines + seq![empty]) by {
        lemma_separators();
        if r.session_id is Some {
            lemma_decimal_is_word(r.session_id->Some_0 as nat);
        }
        assert(sl == match session_text(r.session_id) {
            Some(v) => "Session: "@ + v + e,
            None => empty,
        });
        lemma_lines_of_optional_header("Session: "@, 7, session_text(r.session_id), e);
    }
    assert(spec_lines(tl + (sl + e)) == t_lines + (s_lines + seq![empty])) by {
        lemma_separators();
        lemma_lines_of_optional_header("Transport: "@, 9, r.transport, sl + e);
    }
    assert(spec_lines(l1 + e + (tl + (sl + e))) == seq![l1] + (t_lines + (s_lines + seq![empty])))
        by {
        lemma_decimal_is_word(r.cseq as nat);
        lemma_written_header("Sequence: "@, 8, d);
        lemma_lines_of_line(l1, tl + (sl + e));
    }
    assert(spec_lines(l0 + e + (l1 + e + (tl + (sl + e)))) == seq![l0] + (seq![l1] + (t_lines + (
    s_lines + seq![empty])))) by {
        lemma_request_line(r.request_type, r.filename);
        lemma_lines_of_line(l0, l1 + e + (tl + (sl + e)));
    }
    assert(seq![l0] + (seq![l1] + (t_lines + (s_lines + seq![empty]))) =~= seq![l0]
        + written_headers(r).push(empty));
}

/// Among the header lines that were written, each name is found with the
/// value that was written for it, and no other.
proof fn lemma_written_lookups(r: RequestView)
    requires
        representable(r),
    ensures
        spec_lookup(written_headers(r), "sequence"@) == Some(spec_decimal(r.cseq as nat)),
        spec_lookup(written_headers(r), "transport"@) == r.transport,
        spec_lookup(written_headers(r), "session"@) == session_text(r.session_id),
        forall|i: int| 0 <= i < written_headers(r).len() ==> written_headers(r)[i].len() != 0,
{
    lemma_labels();
    let none = Seq::<Seq<char>>::empty();
    let d = spec_decimal(r.cseq as nat);
    let l1 = "Sequence: "@ + d;
    lemma_decimal_is_word(r.cseq as nat);
    lemma_written_header("Sequence: "@, 8, d);
    let t_lines = optional_line("Transport: "@, r.transport);
    let s_lines = optional_line("Session: "@, session_text(r.session_id));
    let h = written_headers(r);
    let h1 = none.push(l1);
    let h2 = h1 + t_lines;
    assert(h2 + s_lines =~= h);
    lemma_lookup_push(none, l1, "sequence"@);
    lemma_lookup_push(none, l1, "session"@);
    lemma_lookup_push(none, l1, "transport"@);
    assert(spec_lookup(none, "sequence"@) is None);
    assert(spec_lookup(h1, "sequence"@) == Some(d));
    assert(spec_lookup(h1, "session"@) is None);
    assert(spec_lookup(h1, "transport"@) is None);
    match r.transport {
        Some(value) => {
            let l2 = "Transport: "@ + value;
            lemma_written_header("Transport: "@, 9, value);
            assert(h2 =~= h1.push(l2));
            lemma_lookup_push(h1, l2, "sequence"@);
            lemma_lookup_push(h1, l2, "session"@);
            lemma_lookup_push(h1, l2, "transport"@);
        },
        None => {
            assert(h2 =~= h1);
        },
    }
    assert(spec_lookup(h2, "sequence"@) == Some(d));
    assert(spec_lookup(h2, "session"@) is None);
    assert(spec_lookup(h2, "transport"@) == r.transport);
    match r.session_id {
        Some(id) => {
            let l3 = "Session: "@ + spec_decimal(id as nat);
            lemma_decimal_is_word(id as nat);
            lemma_written_header("Session: "@, 7, spec_decimal(id as nat));
            assert(h =~= h2.push(l3));
            lemma_lookup_push(h2, l3, "sequence"@);
            lemma_lookup_push(h2, l3, "session"@);
            lemma_lookup_push(h2, l3, "transport"@);
        },
        None => {
            assert(h =~= h2);
        },
    }
}

/// Reading inverts writing, for requests: the text of a representable
/// request is read back as that request, with its method, resource,
/// sequence number, transport value, client port and session identifier.
pub proof fn lemma_parse_inverts_format(r: RequestView)
    requires
        representable(r),
    ensures
        spec_parse_request(spec_format_request(r)) == Ok::<RequestView, FormatError>(r),
{
    lemma_request_lines(r);
    lemma_written_lookups(r);
    lemma_request_line(r.request_type, r.filename);
    lemma_method_names(r.request_type);
    lemma_parse_decimal(r.cseq as nat, u32::MAX as nat);
    if r.session_id is Some {
        lemma_parse_decimal(r.session_id->Some_0 as nat, u32::MAX as nat);
    }
    let empty = Seq::<char>::empty();
    let l0 = written_request_line(r);
    let h = written_headers(r);
    let lines = spec_lines(spec_format_request(r));
    assert(lines[0] == l0);
    assert(lines.skip(1) =~= h.push(empty));
    lemma_first_empty_is(lines.skip(1), h.len());
    assert(spec_request_headers(lines) =~= h);
    assert(spec_sequence(h) == Ok::<u32, FormatError>(r.cseq));
    assert(spec_optional_session(h) == Ok::<Option<u32>, FormatError>(r.session_id));
    assert(spec_transport(h) == Ok::<(Option<Seq<char>>, Option<u16>), FormatError>(
        (r.transport, r.client_port),
    ));
}

/// The transport value that a client writes is trimmed, fits on one line
/// and names the client's port.
pub proof fn lemma_transport_value(port: u16)
    ensures
        is_trimmed(spec_transport_value(port)),
        is_one_line(spec_transport_value(port)),
        spec_client_port(spec_transport_value(port)) == Ok::<Option<u16>, FormatError>(Some(port)),
{
    reveal_strlit("RTP/UDP; client_port=");
    reveal_strlit("client_port=");
    let prefix = "RTP/UDP; client_port="@;
    let key = "client_port="@;
    let d = spec_decimal(port as nat);
    let value = spec_transport_value(port);
    lemma_decimal(port as nat);
    lemma_decimal_is_word(port as nat);
    lemma_parse_decimal(port as nat, u16::MAX as nat);
    assert(prefix.len() == 21 && key.len() == 12);
    assert(value[0] == 'R');
    assert(value.last() == d.last());
    assert forall|i: int| 0 <= i < value.len() implies #[trigger] value[i] != '\n' by {
        if i >= 21 {
            assert(value[i] == d[i - 21]);
        }
    }
    // The value splits in two at its one semicolon.
    assert forall|i: int| 0 <= i < 7 implies value[i] != ';' by {}
    lemma_find_char_is(value, ';', 7);
    let first = value.take(7);
    let second = value.skip(8);
    assert forall|i: int| 0 <= i < second.len() implies second[i] != ';' by {
        if i >= 13 {
            assert(second[i] == d[i - 13]);
            assert(is_digit(d[i - 13]));
        }
    }
    lemma_find_char_is(second, ';', second.len());
    assert(spec_split(second, ';') == seq![second]);
    let parts = spec_split(value, ';');
    assert(parts =~= seq![first, second]);
    // The first part is not the port parameter.
    assert(first[0] == 'R' && first.last() == 'P');
    lemma_trim_of_trimmed(first);
    assert(!key.is_prefix_of(first));
    // The second part is.
    let param = key + d;
    assert(second =~= seq![' '] + param);
    assert(param[0] == 'c' && param.last() == d.last());
    lemma_trim_of_trimmed(param);
    assert(spec_trim(second) == param);
    assert(param.subrange(0, 12) =~= key);
    assert(key.is_prefix_of(param));
    assert(param.skip(12) =~= d);
    lemma_trim_of_trimmed(d);
    assert(parts.drop_first() =~= seq![second]);
    assert(spec_port_text(seq![second]) == Some(d));
    assert(spec_port_text(parts) == Some(d));
}

/// Parsing a formatted `NEGOTIATE`, `START`, `PAUSE` or `STOP` request
/// reproduces the method, the resource, the sequence number and the
/// session identifier or client port, whatever their values, for every
/// resource that is a word.
pub proof fn lemma_request_round_trip(
    method: RequestType,
    resource: Seq<char>,
    cseq: u32,
    port: u16,
    session_id: u32,
)
    requires
        is_word(resource),
    ensures
        representable(spec_request(method, resource, cseq, port, session_id)),
        spec_parse_request(
            spec_format_request(spec_request(method, resource, cseq, port, session_id)),
        ) == Ok::<RequestView, FormatError>(
            spec_request(method, resource, cseq, port, session_id),
        ),
{
    lemma_transport_value(port);
    lemma_parse_inverts_format(spec_request(method, resource, cseq, port, session_id));
}

/// Reading inverts writing, for responses: the text of a response is read
/// back with its status code, sequence number and session identifier,
/// whatever reason stands on its status line, as long as the reason fits on
/// one line.
pub proof fn lemma_response_round_trip(r: RtspResponse, reason: Seq<char>)
    requires
        is_one_line(reason),
    ensures
        spec_parse_response(spec_format_response(r, reason)) == Ok::<RtspResponse, FormatError>(r),
{
    lemma_separators();
    lemma_labels();
    lemma_version();
    lemma_lines_of_end();
    let e = line_end();
    let empty = Seq::<char>::empty();
    let none = Seq::<Seq<char>>::empty();
    let v = RTSP_VERSION@;
    let code = spec_decimal(r.status_code as nat);
    let d = spec_decimal(r.cseq as nat);
    let id = spec_decimal(r.session_id as nat);
    lemma_decimal_is_word(r.status_code as nat);
    lemma_decimal_is_word(r.cseq as nat);
    lemma_decimal_is_word(r.session_id as nat);
    lemma_parse_decimal(r.status_code as nat, u16::MAX as nat);
    lemma_parse_decimal(r.cseq as nat, u32::MAX as nat);
    lemma_parse_decimal(r.session_id as nat, u32::MAX as nat);
    // The status line.
    let l0 = v + seq![' '] + code + seq![' '] + reason;
    lemma_words_of_word(code, ' ', reason);
    lemma_words_of_word(v, ' ', code + seq![' '] + reason);
    assert(l0 =~= v + seq![' '] + (code + seq![' '] + reason));
    let words = spec_words(l0);
    assert(words =~= seq![v] + (seq![code] + spec_words(reason)));
    assert(words.len() >= 2 && words[1] == code);
    assert(spec_status(l0) == Ok::<u16, FormatError>(r.status_code));
    assert forall|i: int| 0 <= i < l0.len() implies #[trigger] l0[i] != '\n' by {
        if i < v.len() {
            assert(l0[i] == v[i]);
            assert(!is_space(v[i]));
        } else if i == v.len() {
        } else if i < v.len() + 1 + code.len() {
            assert(l0[i] == code[i - v.len() - 1]);
        } else if i == v.len() + 1 + code.len() {
        } else {
            assert(l0[i] == reason[i - v.len() - code.len() - 2]);
        }
    }
    // The headers.
    let l1 = "Sequence: "@ + d;
    let l2 = "Session: "@ + id;
    lemma_written_header("Sequence: "@, 8, d);
    lemma_written_header("Session: "@, 7, id);
    lemma_lines_of_line(l2, e);
    lemma_lines_of_line(l1, l2 + e + e);
    lemma_lines_of_line(l0, l1 + e + (l2 + e + e));
    let text = spec_format_response(r, reason);
    assert(text =~= l0 + e + (l1 + e + (l2 + e + e)));
    let lines = spec_lines(text);
    let h = none.push(l1).push(l2).push(empty);
    assert(lines =~= seq![l0] + h);
    assert(lines[0] == l0);
    assert(lines.skip(1) =~= h);
    lemma_find_char_is(empty, ':', 0);
    assert(!is_header(empty));
    lemma_lookup_push(none, l1, "sequence"@);
    lemma_lookup_push(none.push(l1), l2, "sequence"@);
    lemma_lookup_push(none.push(l1).push(l2), empty, "sequence"@);
    lemma_lookup_push(none.push(l1), l2, "session"@);
    lemma_lookup_push(none.push(l1).push(l2), empty, "session"@);
    assert(spec_sequence(h) == Ok::<u32, FormatError>(r.cseq));
    assert(spec_session(h) == Ok::<u32, FormatError>(r.session_id));
}

} // verus!
