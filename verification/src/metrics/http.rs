//! A minimal HTTP/1.1 exporter: reads the request line, replies, closes the connection.
//! Anything other than `GET /metrics` gets a 404.

use vstd::prelude::*;

use crate::metrics::{Metrics, MetricsView};
use crate::text::push_decimal;

verus! {

/// How much of a request is read: just enough to see the request line.
pub const REQUEST_LIMIT: usize = 1024;

/// The text of bytes that are not valid UTF-8, with replacement characters for what
/// cannot be read.
pub uninterp spec fn lossy_text(bytes: Seq<u8>) -> Seq<char>;

/// `String::from_utf8_lossy`: the text that valid UTF-8 encodes; of other bytes, a text
/// that depends on them alone.
#[verifier::external_body]
fn utf8_lossy(bytes: &[u8]) -> (r: String)
    ensures
        vstd::utf8::valid_utf8(bytes@) ==> r@ == vstd::utf8::decode_utf8(bytes@),
        !vstd::utf8::valid_utf8(bytes@) ==> r@ == lossy_text(bytes@),
{
    String::from_utf8_lossy(bytes).into_owned()
}

/// What a request says.
pub open spec fn request_text(bytes: Seq<u8>) -> Seq<char> {
    if vstd::utf8::valid_utf8(bytes) {
        vstd::utf8::decode_utf8(bytes)
    } else {
        lossy_text(bytes)
    }
}

// ── Request line ─────────────────────────────────────────────────────────────

/// The characters with Unicode's White_Space property.
pub open spec fn white_space(c: char) -> bool {
    ||| '\u{9}' <= c <= '\u{d}'
    ||| c == '\u{20}'
    ||| c == '\u{85}'
    ||| c == '\u{a0}'
    ||| c == '\u{1680}'
    ||| '\u{2000}' <= c <= '\u{200a}'
    ||| c == '\u{2028}'
    ||| c == '\u{2029}'
    ||| c == '\u{202f}'
    ||| c == '\u{205f}'
    ||| c == '\u{3000}'
}

/// Whether `c` has Unicode's White_Space property.
fn is_white_space(c: char) -> (r: bool)
    ensures
        r == white_space(c),
{
    ('\u{9}' <= c && c <= '\u{d}') || c == '\u{20}' || c == '\u{85}' || c == '\u{a0}' || c
        == '\u{1680}' || ('\u{2000}' <= c && c <= '\u{200a}') || c == '\u{2028}' || c == '\u{2029}'
        || c == '\u{202f}' || c == '\u{205f}' || c == '\u{3000}'
}

/// The characters before the first line feed.
pub open spec fn first_line(s: Seq<char>) -> Seq<char>
    decreases s.len(),
{
    if s.len() == 0 || s[0] == '\n' {
        Seq::empty()
    } else {
        seq![s[0]] + first_line(s.skip(1))
    }
}

/// How many characters at the start of `s` are all white space, or all not.
pub open spec fn run(s: Seq<char>, space: bool) -> nat
    decreases s.len(),
{
    if s.len() == 0 || white_space(s[0]) != space {
        0
    } else {
        1 + run(s.skip(1), space)
    }
}

/// The first word of `s`, which white space parts from what follows.
pub open spec fn first_word(s: Seq<char>) -> Seq<char> {
    let words = s.skip(run(s, true) as int);
    words.take(run(words, false) as int)
}

/// What follows the first word of `s`.
pub open spec fn after_first_word(s: Seq<char>) -> Seq<char> {
    let words = s.skip(run(s, true) as int);
    words.skip(run(words, false) as int)
}

/// Whether a request line asks for the metrics: its method is GET, and its path is
/// `/metrics` with or without a query.
pub open spec fn asks_for_metrics(line: Seq<char>) -> bool {
    let path = first_word(after_first_word(line));
    &&& first_word(line) == "GET"@
    &&& path == "/metrics"@ || "/metrics?"@.is_prefix_of(path)
}

proof fn lemma_run_bound(s: Seq<char>, space: bool)
    ensures
        run(s, space) <= s.len(),
    decreases s.len(),
{
    if s.len() > 0 {
        lemma_run_bound(s.skip(1), space);
    }
}

/// The end of the characters at `from` that are all white space, or all not.
fn run_end(chars: &Vec<char>, from: usize, space: bool) -> (r: usize)
    requires
        from <= chars.len(),
    ensures
        from <= r <= chars.len(),
        r - from == run(chars@.skip(from as int), space),
{
    let mut i: usize = from;
    proof {
        lemma_run_bound(chars@.skip(from as int), space);
    }
    while i < chars.len() && is_white_space(chars[i]) == space
        invariant
            from <= i <= chars.len(),
            run(chars@.skip(from as int), space) == i - from + run(chars@.skip(i as int), space),
        decreases chars.len() - i,
    {
        assert(chars@.skip(i as int).skip(1) =~= chars@.skip(i + 1));
        i += 1;
    }
    i
}

/// Whether the characters from `from` to `to` begin with `prefix`.
fn begins_with(chars: &Vec<char>, from: usize, to: usize, prefix: &str) -> (r: bool)
    requires
        from <= to <= chars.len(),
    ensures
        r == prefix@.is_prefix_of(chars@.subrange(from as int, to as int)),
{
    let mut i: usize = from;
    let mut same = true;
    for c in it: prefix.chars()
        invariant
            from <= i <= to <= chars.len(),
            it.seq() == prefix@,
            same ==> i == from + it.index() && prefix@.take(it.index() as int) =~= chars@.subrange(
                from as int,
                i as int,
            ),
            !same ==> !prefix@.is_prefix_of(chars@.subrange(from as int, to as int)),
    {
        if same && i < to && chars[i] == c {
            i += 1;
        } else {
            if same {
                assert(!prefix@.is_prefix_of(chars@.subrange(from as int, to as int))) by {
                    let part = chars@.subrange(from as int, to as int);
                    if prefix@.is_prefix_of(part) {
                        assert(part[it.index() as int] == prefix@[it.index() as int]);
                    }
                }
            }
            same = false;
        }
    }
    if same {
        assert(prefix@.take(prefix@.len() as int) =~= prefix@);
        assert(prefix@ =~= chars@.subrange(from as int, to as int).take(prefix@.len() as int));
    }
    same
}

/// The first line of `head`, character by character.
fn line_chars(head: &str) -> (r: Vec<char>)
    ensures
        r@ == first_line(head@),
{
    let mut line: Vec<char> = Vec::new();
    let mut open = true;
    assert(head@.skip(0) =~= head@);
    assert(line@ + first_line(head@) =~= first_line(head@));
    for c in it: head.chars()
        invariant
            it.seq() == head@,
            open ==> first_line(head@) == line@ + first_line(head@.skip(it.index() as int)),
            !open ==> first_line(head@) == line@,
    {
        let ghost rest = head@.skip(it.index() as int);
        assert(rest[0] == c);
        assert(rest.skip(1) =~= head@.skip(it.index() + 1));
        if open {
            if c == '\n' {
                open = false;
                assert(first_line(head@) =~= line@);
            } else {
                assert(line@ + first_line(rest) =~= line@.push(c) + first_line(rest.skip(1)));
                line.push(c);
            }
        }
    }
    assert(first_line(head@) =~= line@);
    line
}

/// Whether the head of a request asks for the metrics.
pub fn is_metrics_request(head: &str) -> (r: bool)
    ensures
        r == asks_for_metrics(first_line(head@)),
{
    let line = line_chars(head);
    let method_start = run_end(&line, 0, true);
    let method_end = run_end(&line, method_start, false);
    let path_start = run_end(&line, method_end, true);
    let path_end = run_end(&line, path_start, false);
    proof {
        reveal_strlit("GET");
        reveal_strlit("/metrics");
        let l = line@;
        assert(l.skip(0) =~= l);
        let words = l.skip(method_start as int);
        assert(words.skip(method_end - method_start) =~= l.skip(method_end as int));
        assert(words.take(method_end - method_start) =~= l.subrange(
            method_start as int,
            method_end as int,
        ));
        let rest = after_first_word(l);
        assert(rest =~= l.skip(method_end as int));
        assert(rest.skip(path_start - method_end) =~= l.skip(path_start as int));
        assert(first_word(rest) =~= l.subrange(path_start as int, path_end as int));
        let method = first_word(l);
        if "GET"@.is_prefix_of(method) && method.len() == 3 {
            assert(method =~= "GET"@);
        }
        let path = first_word(rest);
        if "/metrics"@.is_prefix_of(path) && path.len() == 8 {
            assert(path =~= "/metrics"@);
        }
    }
    let is_get = method_end - method_start == 3 && begins_with(
        &line,
        method_start,
        method_end,
        "GET",
    );
    let is_bare = path_end - path_start == 8 && begins_with(
        &line,
        path_start,
        path_end,
        "/metrics",
    );
    is_get && (is_bare || begins_with(&line, path_start, path_end, "/metrics?"))
}

// ── Response ─────────────────────────────────────────────────────────────────

/// A response: what is written to the connection before it is closed.
pub struct Response {
    pub header: String,
    pub body: Vec<u8>,
}

/// The header of the response that carries the metrics in a body of `len` bytes.
pub open spec fn ok_header(len: nat) -> Seq<char> {
    "HTTP/1.1 200 OK\r\nContent-Type: text/plain; version=0.0.4\r\nContent-Length: "@
        + crate::text::decimal(len) + "\r\nConnection: close\r\n\r\n"@
}

/// The header of the response to any other request, with a body of `len` bytes.
pub open spec fn not_found_header(len: nat) -> Seq<char> {
    "HTTP/1.1 404 Not Found\r\nContent-Type: text/plain\r\nContent-Length: "@
        + crate::text::decimal(len) + "\r\nConnection: close\r\n\r\n"@
}

/// The body of the response to any other request: `404 not found` and a line feed.
pub open spec fn not_found_body() -> Seq<u8> {
    seq![52, 48, 52, 32, 110, 111, 116, 32, 102, 111, 117, 110, 100, 10]
}

/// The response that carries `body`.
pub fn metrics_response(body: Vec<u8>) -> (r: Response)
    ensures
        r.header@ == ok_header(body@.len()),
        r.body@ == body@,
{
    let mut header =
        "HTTP/1.1 200 OK\r\nContent-Type: text/plain; version=0.0.4\r\nContent-Length: ".to_owned();
    push_decimal(&mut header, body.len() as u64);
    header.append("\r\nConnection: close\r\n\r\n");
    Response { header, body }
}

/// The response to any other request.
pub fn not_found_response() -> (r: Response)
    ensures
        r.header@ == not_found_header(not_found_body().len()),
        r.body@ == not_found_body(),
{
    let body: Vec<u8> = vec![52, 48, 52, 32, 110, 111, 116, 32, 102, 111, 117, 110, 100, 10];
    assert(body@ =~= not_found_body());
    let mut header =
        "HTTP/1.1 404 Not Found\r\nContent-Type: text/plain\r\nContent-Length: ".to_owned();
    push_decimal(&mut header, body.len() as u64);
    header.append("\r\nConnection: close\r\n\r\n");
    Response { header, body }
}

/// Whether `r` answers the request.
pub open spec fn is_response(r: Response, request: Seq<u8>, metrics: MetricsView) -> bool {
    if asks_for_metrics(first_line(request_text(request))) {
        r.header@ == ok_header(metrics.text().len()) && r.body@ == metrics.text()
    } else {
        r.header@ == not_found_header(14) && r.body@ == not_found_body()
    }
}

/// Answer the head of a request: the metrics as they are now to whoever asks for them,
/// and a 404 to everybody else.
pub fn respond(request: &[u8], metrics: &Metrics) -> (r: Response)
    requires
        metrics.wf(),
    ensures
        is_response(r, request@, metrics@),
        asks_for_metrics(first_line(request_text(request@))) ==> {
            &&& r.header@ == ok_header(metrics@.text().len())
            &&& r.body@ == metrics@.text()
        },
        !asks_for_metrics(first_line(request_text(request@))) ==> {
            &&& r.header@ == not_found_header(not_found_body().len())
            &&& r.body@ == not_found_body()
        },
{
    let head = utf8_lossy(request);
    if is_metrics_request(head.as_str()) {
        metrics_response(metrics.render())
    } else {
        not_found_response()
    }
}

// ── Laws ─────────────────────────────────────────────────────────────────────

/// A request that starts with `GET /metrics` asks for the metrics exactly when the path
/// ends there or goes on with a query, whatever follows.
pub proof fn law_scrape_path_is_whole(rest: Seq<char>)
    ensures
        asks_for_metrics(first_line("GET /metrics"@ + rest)) <==> {
            ||| rest.len() == 0
            ||| white_space(rest[0])
            ||| rest[0] == '?'
        },
{
    let start = "GET /metrics"@;
    let tail = first_line(rest);
    reveal_strlit("GET /metrics");
    reveal_strlit("GET");
    reveal_strlit("/metrics");
    reveal_strlit("/metrics?");
    lemma_first_line_of_prefix(start, rest);
    let line = start + tail;
    assert(tail.len() > 0 <==> rest.len() > 0 && rest[0] != '\n');
    assert(tail.len() > 0 ==> tail[0] == rest[0]);
    assert(run(line, true) == 0);
    assert(line.skip(0) =~= line);
    // The method.
    assert(line.skip(3)[0] == ' ');
    lemma_run_over(line, 3, false);
    assert(first_word(line) =~= "GET"@);
    let after = line.skip(3);
    assert(after_first_word(line) =~= after);
    // The path.
    assert(after.skip(1)[0] == '/');
    lemma_run_over(after, 1, true);
    let path = after.skip(1);
    assert(forall|i: int| 0 <= i < 8 ==> path[i] == "/metrics"@[i]);
    assert(path.skip(8) =~= tail);
    lemma_run_over(path, 8, false);
    lemma_run_bound(tail, false);
    let word = first_word(after);
    assert(word == path.take(8 + run(tail, false) as int));
    if tail.len() == 0 || white_space(tail[0]) {
        assert(word =~= "/metrics"@);
    } else {
        assert(word[8] == tail[0]);
        if tail[0] == '?' {
            assert("/metrics?"@ =~= word.take(9));
        } else if "/metrics?"@.is_prefix_of(word) {
            assert(word.take(9)[8] == "/metrics?"@[8]);
        }
        assert(word.len() > 8);
    }
}

/// A request that is encoded in UTF-8 is read as it was written.
pub proof fn law_utf8_request_is_read_exactly(text: Seq<char>)
    ensures
        request_text(vstd::utf8::encode_utf8(text)) == text,
{
    vstd::utf8::encode_utf8_valid_utf8(text);
    vstd::utf8::encode_utf8_decode_utf8(text);
}

/// A run goes on over any number of characters of its kind.
proof fn lemma_run_over(s: Seq<char>, n: nat, space: bool)
    requires
        n <= s.len(),
        forall|i: int| 0 <= i < n ==> white_space(#[trigger] s[i]) == space,
    ensures
        run(s, space) == n + run(s.skip(n as int), space),
    decreases n,
{
    if n > 0 {
        let next = s.skip(1);
        assert(forall|i: int| 0 <= i < n - 1 ==> next[i] == s[i + 1]);
        lemma_run_over(next, (n - 1) as nat, space);
        assert(next.skip(n - 1) =~= s.skip(n as int));
    } else {
        assert(s.skip(0) =~= s);
    }
}

/// The first line goes on over any characters before the line feed.
proof fn lemma_first_line_of_prefix(start: Seq<char>, rest: Seq<char>)
    requires
        forall|i: int| 0 <= i < start.len() ==> start[i] != '\n',
    ensures
        first_line(start + rest) == start + first_line(rest),
    decreases start.len(),
{
    let s = start + rest;
    if start.len() > 0 {
        assert(s.skip(1) =~= start.skip(1) + rest);
        lemma_first_line_of_prefix(start.skip(1), rest);
        assert(seq![s[0]] + (start.skip(1) + first_line(rest)) =~= start + first_line(rest));
    } else {
        assert(s =~= rest);
        assert(start + first_line(rest) =~= first_line(rest));
    }
}

/// The first line is all before the first line feed, or all there is.
pub proof fn law_first_line_ends_at_the_line_feed(line: Seq<char>, rest: Seq<char>)
    requires
        forall|i: int| 0 <= i < line.len() ==> line[i] != '\n',
    ensures
        first_line(line + seq!['\n'] + rest) == line,
        first_line(line) == line,
{
    lemma_first_line_of_prefix(line, seq!['\n'] + rest);
    assert(line + seq!['\n'] + rest =~= line + (seq!['\n'] + rest));
    assert(first_line(seq!['\n'] + rest) =~= Seq::<char>::empty());
    lemma_first_line_of_prefix(line, Seq::empty());
    assert(line + Seq::<char>::empty() =~= line);
}

/// Whether a text is of white space alone.
pub open spec fn blank(s: Seq<char>) -> bool {
    forall|i: int| 0 <= i < s.len() ==> white_space(#[trigger] s[i])
}

/// Whether a text is a word: not empty, and without white space.
pub open spec fn is_word(s: Seq<char>) -> bool {
    s.len() > 0 && forall|i: int| 0 <= i < s.len() ==> !white_space(#[trigger] s[i])
}

/// The words of a line are what white space parts: whatever white space stands before a
/// word, and whatever follows it behind at least one white space, the word is found whole.
pub proof fn law_words_are_parted_by_white_space(
    before: Seq<char>,
    word: Seq<char>,
    rest: Seq<char>,
)
    requires
        blank(before),
        is_word(word),
        rest.len() == 0 || white_space(rest[0]),
    ensures
        first_word(before + word + rest) == word,
        after_first_word(before + word + rest) == rest,
        first_word(before) == Seq::<char>::empty(),
        after_first_word(before) == Seq::<char>::empty(),
{
    let s = before + word + rest;
    assert(forall|i: int| 0 <= i < before.len() ==> s[i] == before[i]);
    let words = s.skip(before.len() as int);
    assert(words =~= word + rest);
    assert(words[0] == word[0]);
    lemma_run_over(s, before.len(), true);
    assert(run(words, true) == 0);
    assert(forall|i: int| 0 <= i < word.len() ==> words[i] == word[i]);
    lemma_run_over(words, word.len(), false);
    assert(words.skip(word.len() as int) =~= rest);
    assert(run(rest, false) == 0);
    assert(first_word(s) =~= word);
    assert(after_first_word(s) =~= rest);
    lemma_run_over(before, before.len(), true);
    assert(before.skip(before.len() as int) =~= Seq::<char>::empty());
    assert(first_word(before) =~= Seq::<char>::empty());
    assert(after_first_word(before) =~= Seq::<char>::empty());
}

/// Which requests ask for the metrics: those whose first word is `GET` and whose second is
/// `/metrics`, or starts with `/metrics?`; whatever white space parts the words, and
/// whatever follows them.
pub proof fn law_only_get_metrics_is_a_scrape(
    space: Seq<char>,
    method: Seq<char>,
    more_space: Seq<char>,
    path: Seq<char>,
    rest: Seq<char>,
)
    requires
        blank(space),
        is_word(method),
        blank(more_space),
        more_space.len() > 0,
        is_word(path),
        rest.len() == 0 || white_space(rest[0]),
    ensures
        asks_for_metrics(space + method + (more_space + path + rest)) <==> method == "GET"@ && (path
            == "/metrics"@ || (path.len() >= 9 && path.take(9) == "/metrics?"@)),
        !asks_for_metrics(space + method + more_space),
        !asks_for_metrics(space + method),
        !asks_for_metrics(space),
{
    reveal_strlit("GET");
    reveal_strlit("/metrics");
    reveal_strlit("/metrics?");
    let tail = more_space + path + rest;
    assert(tail[0] == more_space[0]);
    law_words_are_parted_by_white_space(space, method, tail);
    law_words_are_parted_by_white_space(more_space, path, rest);
    if path.len() >= 9 && path.take(9) == "/metrics?"@ {
        assert("/metrics?"@.is_prefix_of(path));
    }
    if "/metrics?"@.is_prefix_of(path) {
        assert(path.take(9) =~= "/metrics?"@);
    }
    law_words_are_parted_by_white_space(space, method, more_space);
    law_words_are_parted_by_white_space(more_space, path, Seq::empty());
    law_words_are_parted_by_white_space(space, method, Seq::empty());
    assert(space + method + Seq::<char>::empty() =~= space + method);
    law_words_are_parted_by_white_space(Seq::empty(), method, Seq::empty());
}

/// What is white space: exactly these characters.
pub proof fn law_white_space_is_unicodes(c: char)
    ensures
        white_space(c) <==> {
            let u = c as u32;
            ||| 0x9 <= u <= 0xd
            ||| u == 0x20 || u == 0x85 || u == 0xa0 || u == 0x1680
            ||| 0x2000 <= u <= 0x200a
            ||| u == 0x2028 || u == 0x2029 || u == 0x202f || u == 0x205f || u == 0x3000
        },
{
}

/// What the answers say: a scrape gets the text of the metrics, whole, with its length;
/// any other request gets a 404 with a body of fourteen bytes.
pub proof fn law_answers_are_exact(r: Response, request: Seq<u8>, metrics: MetricsView)
    requires
        is_response(r, request, metrics),
    ensures
        asks_for_metrics(first_line(request_text(request))) ==> {
            &&& r.body@ == metrics.text()
            &&& r.header@
                == "HTTP/1.1 200 OK\r\nContent-Type: text/plain; version=0.0.4\r\nContent-Length: "@
                + crate::text::decimal(r.body@.len()) + "\r\nConnection: close\r\n\r\n"@
        },
        !asks_for_metrics(first_line(request_text(request))) ==> {
            &&& r.body@ == seq![
                52u8, 48u8, 52u8, 32u8, 110u8, 111u8, 116u8, 32u8, 102u8, 111u8, 117u8, 110u8,
                100u8, 10u8,
            ]
            &&& r.header@
                == "HTTP/1.1 404 Not Found\r\nContent-Type: text/plain\r\nContent-Length: "@
                + crate::text::decimal(r.body@.len()) + "\r\nConnection: close\r\n\r\n"@
        },
{
}

/// One kibibyte of a request is read, which holds any request line of a scraper.
pub proof fn law_one_kibibyte_is_read()
    ensures
        REQUEST_LIMIT == 1024,
{
}

} // verus!
