//! Text handling shared by the table and bank readers: lines, fields, words
//! and trimming, each stated over the characters of the text.

use vstd::prelude::*;

verus! {

// ---------------------------------------------------------------------------
// Characters
// ---------------------------------------------------------------------------

/// The Unicode `White_Space` property.
pub open spec fn white_space(c: char) -> bool {
    ||| 0x09 <= c as u32 <= 0x0d
    ||| c as u32 == 0x20
    ||| c as u32 == 0x85
    ||| c as u32 == 0xa0
    ||| c as u32 == 0x1680
    ||| 0x2000 <= c as u32 <= 0x200a
    ||| c as u32 == 0x2028
    ||| c as u32 == 0x2029
    ||| c as u32 == 0x202f
    ||| c as u32 == 0x205f
    ||| c as u32 == 0x3000
}

/// Whether a character is white space.
pub fn is_white_space(c: char) -> (r: bool)
    ensures
        r == white_space(c),
{
    let u: u32 = c as u32;
    (0x09 <= u && u <= 0x0d) || u == 0x20 || u == 0x85 || u == 0xa0 || u == 0x1680 || (0x2000 <= u
        && u <= 0x200a) || u == 0x2028 || u == 0x2029 || u == 0x202f || u == 0x205f || u == 0x3000
}

/// `String::push` appends one character to the end of the string.
pub assume_specification[ String::push ](s: &mut String, c: char)
    ensures
        final(s)@ == old(s)@.push(c),
;

/// The Unicode lower-case form of a text.
pub uninterp spec fn lowercase(s: Seq<char>) -> Seq<char>;

/// The lower-case form of an ASCII letter; any other character is kept.
pub open spec fn ascii_lower(c: char) -> char {
    if 'A' <= c <= 'Z' {
        (c as u32 + 32) as char
    } else {
        c
    }
}

/// A text with each of its ASCII letters in lower case.
pub open spec fn ascii_lowercase(s: Seq<char>) -> Seq<char> {
    Seq::new(s.len(), |i: int| ascii_lower(s[i]))
}

/// `str::to_lowercase` gives the lower-case form of the text, which depends on
/// nothing but the text. On a text of ASCII characters alone it maps each of
/// `A` to `Z` to its small letter and keeps everything else. What it gives for
/// other characters is left to the name `lowercase`.
pub assume_specification[ str::to_lowercase ](s: &str) -> (r: String)
    ensures
        r@ == lowercase(s@),
        vstd::utf8::is_ascii_chars(s@) ==> r@ == ascii_lowercase(s@),
;

/// The characters of a text, in order.
pub fn chars_of(s: &str) -> (r: Vec<char>)
    ensures
        r@ == s@,
{
    let mut out: Vec<char> = Vec::new();
    for c in it: s.chars()
        invariant
            out@ == s@.take(it.index()),
            it.seq() == s@,
    {
        assert(s@.take(it.index() + 1) =~= s@.take(it.index()).push(c));
        out.push(c);
    }
    assert(s@.take(s@.len() as int) =~= s@);
    out
}

/// The text made of the characters at `from..to`.
pub fn text_of(chars: &Vec<char>, from: usize, to: usize) -> (r: String)
    requires
        from <= to <= chars.len(),
    ensures
        r@ == chars@.subrange(from as int, to as int),
{
    let mut out: String = String::new();
    let mut i: usize = from;
    while i < to
        invariant
            from <= i <= to <= chars.len(),
            out@ == chars@.subrange(from as int, i as int),
        decreases to - i,
    {
        out.push(chars[i]);
        i += 1;
        assert(chars@.subrange(from as int, i as int) =~= chars@.subrange(
            from as int,
            i - 1,
        ).push(chars@[i - 1]));
    }
    out
}

/// The views of a list of texts.
pub open spec fn views(list: Seq<String>) -> Seq<Seq<char>> {
    Seq::new(list.len(), |i: int| list[i]@)
}

/// Whether two texts hold the same characters.
pub fn same_text(a: &str, b: &str) -> (r: bool)
    ensures
        r == (a@ == b@),
{
    a.to_owned() == b.to_owned()
}

// ---------------------------------------------------------------------------
// Scanning
// ---------------------------------------------------------------------------

/// What ends a run of characters.
#[derive(Clone, Copy)]
pub enum Stop {
    /// One given character.
    At(char),
    /// Any white space.
    Space,
    /// Anything but white space.
    Ink,
}

impl Stop {
    /// Whether `c` ends the run.
    pub open spec fn stops(self, c: char) -> bool {
        match self {
            Stop::At(mark) => c == mark,
            Stop::Space => white_space(c),
            Stop::Ink => !white_space(c),
        }
    }

    fn hit(self, c: char) -> (r: bool)
        ensures
            r == self.stops(c),
    {
        match self {
            Stop::At(mark) => c == mark,
            Stop::Space => is_white_space(c),
            Stop::Ink => !is_white_space(c),
        }
    }
}

/// The first position at or after `from` whose character ends the run, or the
/// length of `s` if there is none.
pub open spec fn next_stop(s: Seq<char>, from: int, stop: Stop) -> int
    decreases s.len() - from,
{
    if from >= s.len() {
        s.len() as int
    } else if stop.stops(s[from]) {
        from
    } else {
        next_stop(s, from + 1, stop)
    }
}

/// `next_stop` lies at or after its start, nothing before it ends the run, and
/// the character there does.
pub proof fn next_stop_is_first(s: Seq<char>, from: int, stop: Stop)
    requires
        0 <= from <= s.len(),
    ensures
        from <= next_stop(s, from, stop) <= s.len(),
        forall|k: int| from <= k < next_stop(s, from, stop) ==> !stop.stops(#[trigger] s[k]),
        next_stop(s, from, stop) < s.len() ==> stop.stops(s[next_stop(s, from, stop)]),
    decreases s.len() - from,
{
    if from < s.len() && !stop.stops(s[from]) {
        next_stop_is_first(s, from + 1, stop);
    }
}

fn scan(chars: &Vec<char>, from: usize, stop: Stop) -> (r: usize)
    requires
        from <= chars.len(),
    ensures
        r == next_stop(chars@, from as int, stop),
        from <= r <= chars.len(),
        forall|k: int| from <= k < r ==> !stop.stops(#[trigger] chars@[k]),
        r < chars.len() ==> stop.stops(chars@[r as int]),
{
    let mut i: usize = from;
    while i < chars.len() && !stop.hit(chars[i])
        invariant
            from <= i <= chars.len(),
            next_stop(chars@, from as int, stop) == next_stop(chars@, i as int, stop),
        decreases chars.len() - i,
    {
        i += 1;
    }
    proof {
        next_stop_is_first(chars@, from as int, stop);
    }
    i
}

// ---------------------------------------------------------------------------
// Lines
// ---------------------------------------------------------------------------

/// A line without the carriage return that precedes its line feed.
pub open spec fn chomped(line: Seq<char>) -> Seq<char> {
    if line.len() > 0 && line.last() == '\r' {
        line.drop_last()
    } else {
        line
    }
}

/// The lines of `s` from position `from` on.
pub open spec fn lines_from(s: Seq<char>, from: int) -> Seq<Seq<char>>
    decreases s.len() - from,
{
    if from < 0 || from >= s.len() {
        seq![]
    } else {
        let end = next_stop(s, from, Stop::At('\n'));
        if from <= end < s.len() {
            seq![chomped(s.subrange(from, end))] + lines_from(s, end + 1)
        } else {
            seq![s.subrange(from, s.len() as int)]
        }
    }
}

/// The lines of a text: split at each line feed, a carriage return before the
/// line feed dropped, and no empty line after a final line feed.
pub open spec fn lines_of(s: Seq<char>) -> Seq<Seq<char>> {
    lines_from(s, 0)
}

/// The lines of a text.
pub fn lines(s: &str) -> (r: Vec<String>)
    ensures
        views(r@) == lines_of(s@),
{
    let chars: Vec<char> = chars_of(s);
    let mut out: Vec<String> = Vec::new();
    let mut from: usize = 0;
    while from < chars.len()
        invariant
            from <= chars.len(),
            lines_of(chars@) == views(out@) + lines_from(chars@, from as int),
        decreases chars.len() - from,
    {
        let ghost before = views(out@);
        let end: usize = scan(&chars, from, Stop::At('\n'));
        if end < chars.len() {
            let keep: usize = if from < end && chars[end - 1] == '\r' {
                end - 1
            } else {
                end
            };
            let ghost whole = chars@.subrange(from as int, end as int);
            let line: String = text_of(&chars, from, keep);
            assert(line@ =~= chomped(whole));
            out.push(line);
            assert(views(out@) =~= before.push(chomped(whole)));
            assert(before + (seq![chomped(whole)] + lines_from(chars@, end + 1)) =~= views(out@)
                + lines_from(chars@, end + 1));
            from = end + 1;
        } else {
            let line: String = text_of(&chars, from, chars.len());
            out.push(line);
            assert(views(out@) =~= before + seq![
                chars@.subrange(from as int, chars@.len() as int),
            ]);
            from = chars.len();
        }
    }
    assert(views(out@) + lines_from(chars@, from as int) =~= views(out@));
    out
}

proof fn next_stop_in_front(a: Seq<char>, b: Seq<char>, from: int, stop: Stop)
    requires
        0 <= from <= a.len(),
        next_stop(a, from, stop) < a.len(),
    ensures
        next_stop(a + b, from, stop) == next_stop(a, from, stop),
    decreases a.len() - from,
{
    if from < a.len() {
        assert((a + b)[from] == a[from]);
        if !stop.stops(a[from]) {
            next_stop_in_front(a, b, from + 1, stop);
        }
    }
}

proof fn next_stop_behind(a: Seq<char>, b: Seq<char>, from: int, stop: Stop)
    requires
        0 <= from <= b.len(),
    ensures
        next_stop(a + b, a.len() + from, stop) == a.len() + next_stop(b, from, stop),
    decreases b.len() - from,
{
    if from < b.len() {
        assert((a + b)[a.len() + from] == b[from]);
        if !stop.stops(b[from]) {
            next_stop_behind(a, b, from + 1, stop);
        }
    }
}

proof fn lines_behind(a: Seq<char>, b: Seq<char>, from: int)
    requires
        0 <= from <= b.len(),
    ensures
        lines_from(a + b, a.len() + from) == lines_from(b, from),
    decreases b.len() - from,
{
    if from < b.len() {
        let end = next_stop(b, from, Stop::At('\n'));
        next_stop_behind(a, b, from, Stop::At('\n'));
        next_stop_is_first(b, from, Stop::At('\n'));
        if end < b.len() {
            assert((a + b).subrange(a.len() + from, a.len() + end) =~= b.subrange(from, end));
            lines_behind(a, b, end + 1);
        } else {
            assert((a + b).subrange(a.len() + from, (a + b).len() as int) =~= b.subrange(
                from,
                b.len() as int,
            ));
        }
    }
}

proof fn lines_in_front(a: Seq<char>, b: Seq<char>, from: int)
    requires
        a.len() > 0 ==> a.last() == '\n',
        0 <= from <= a.len(),
    ensures
        lines_from(a + b, from) == lines_from(a, from) + lines_of(b),
    decreases a.len() - from,
{
    if from < a.len() {
        let end = next_stop(a, from, Stop::At('\n'));
        next_stop_is_first(a, from, Stop::At('\n'));
        assert(end < a.len()) by {
            if end == a.len() {
                assert(!Stop::At('\n').stops(a[a.len() - 1]));
            }
        }
        next_stop_in_front(a, b, from, Stop::At('\n'));
        assert((a + b).subrange(from, end) =~= a.subrange(from, end));
        lines_in_front(a, b, end + 1);
        let head = seq![chomped(a.subrange(from, end))];
        assert(head + (lines_from(a, end + 1) + lines_of(b)) =~= (head + lines_from(a, end + 1))
            + lines_of(b));
    } else {
        lines_behind(a, b, 0);
        assert(lines_from(a, from) + lines_of(b) =~= lines_of(b));
    }
}

/// After a text that ends in a line feed, the lines of what follows are simply
/// appended.
pub proof fn lines_append(a: Seq<char>, b: Seq<char>)
    requires
        a.len() > 0 ==> a.last() == '\n',
    ensures
        lines_of(a + b) == lines_of(a) + lines_of(b),
{
    lines_in_front(a, b, 0);
}

/// A text with one line feed, at its end, is one line.
pub proof fn one_line(body: Seq<char>)
    requires
        !body.contains('\n'),
    ensures
        lines_of(body.push('\n')) == seq![chomped(body)],
{
    let s = body.push('\n');
    let end = next_stop(s, 0, Stop::At('\n'));
    next_stop_is_first(s, 0, Stop::At('\n'));
    if end < body.len() {
        assert(body[end] == '\n');
    }
    if end > body.len() {
        assert(!Stop::At('\n').stops(s[body.len() as int]));
    }
    assert(s.subrange(0, end) =~= body);
    assert(lines_from(s, end + 1) =~= seq![]);
    assert(lines_of(s) =~= seq![chomped(body)]);
}

/// A text without a line feed is one line, kept whole, or none if it is empty.
pub proof fn open_line(body: Seq<char>)
    requires
        !body.contains('\n'),
    ensures
        lines_of(body) == (if body.len() > 0 {
            seq![body]
        } else {
            seq![]
        }),
{
    if body.len() > 0 {
        let end = next_stop(body, 0, Stop::At('\n'));
        next_stop_is_first(body, 0, Stop::At('\n'));
        if end < body.len() {
            assert(body[end] == '\n');
        }
        assert(body.subrange(0, body.len() as int) =~= body);
    }
}

// ---------------------------------------------------------------------------
// Trimming
// ---------------------------------------------------------------------------

/// `s` without its leading white space.
pub open spec fn trimmed_start(s: Seq<char>) -> Seq<char>
    decreases s.len(),
{
    if s.len() > 0 && white_space(s.first()) {
        trimmed_start(s.drop_first())
    } else {
        s
    }
}

/// `s` without its trailing white space.
pub open spec fn trimmed_end(s: Seq<char>) -> Seq<char>
    decreases s.len(),
{
    if s.len() > 0 && white_space(s.last()) {
        trimmed_end(s.drop_last())
    } else {
        s
    }
}

/// `s` without the white space at either end.
pub open spec fn trimmed(s: Seq<char>) -> Seq<char> {
    trimmed_end(trimmed_start(s))
}

/// A text without the white space at either end.
pub fn trim(s: &str) -> (r: String)
    ensures
        r@ == trimmed(s@),
{
    let chars: Vec<char> = chars_of(s);
    let mut from: usize = 0;
    assert(chars@.skip(0) =~= chars@);
    while from < chars.len() && is_white_space(chars[from])
        invariant
            from <= chars.len(),
            trimmed_start(chars@) == trimmed_start(chars@.skip(from as int)),
        decreases chars.len() - from,
    {
        assert(chars@.skip(from as int).drop_first() =~= chars@.skip(from + 1));
        from += 1;
    }
    let mut to: usize = chars.len();
    assert(chars@.skip(from as int) =~= chars@.subrange(from as int, to as int));
    while from < to && is_white_space(chars[to - 1])
        invariant
            from <= to <= chars.len(),
            trimmed(chars@) == trimmed_end(chars@.subrange(from as int, to as int)),
        decreases to,
    {
        assert(chars@.subrange(from as int, to as int).drop_last() =~= chars@.subrange(
            from as int,
            to - 1,
        ));
        to -= 1;
    }
    text_of(&chars, from, to)
}

/// A text of white space alone.
pub open spec fn is_blank(s: Seq<char>) -> bool {
    forall|i: int| 0 <= i < s.len() ==> white_space(#[trigger] s[i])
}

proof fn blank_start_falls(pre: Seq<char>, s: Seq<char>)
    requires
        is_blank(pre),
    ensures
        trimmed_start(pre + s) == trimmed_start(s),
    decreases pre.len(),
{
    if pre.len() == 0 {
        assert(pre + s =~= s);
    } else {
        assert((pre + s).first() == pre[0]);
        assert((pre + s).drop_first() =~= pre.drop_first() + s);
        blank_start_falls(pre.drop_first(), s);
    }
}

proof fn blank_end_falls(s: Seq<char>, post: Seq<char>)
    requires
        is_blank(post),
    ensures
        trimmed_end(s + post) == trimmed_end(s),
    decreases post.len(),
{
    if post.len() == 0 {
        assert(s + post =~= s);
    } else {
        assert((s + post).last() == post[post.len() - 1]);
        assert((s + post).drop_last() =~= s + post.drop_last());
        blank_end_falls(s, post.drop_last());
    }
}

proof fn start_before_more(s: Seq<char>, post: Seq<char>)
    ensures
        trimmed_start(s).len() > 0 ==> trimmed_start(s + post) == trimmed_start(s) + post,
        trimmed_start(s).len() == 0 ==> trimmed_start(s + post) == trimmed_start(post),
    decreases s.len(),
{
    if s.len() == 0 {
        assert(s + post =~= post);
    } else {
        assert((s + post).first() == s.first());
        if white_space(s.first()) {
            assert((s + post).drop_first() =~= s.drop_first() + post);
            start_before_more(s.drop_first(), post);
        }
    }
}

/// White space put around a text is trimmed away again.
pub proof fn blanks_around_are_trimmed(pre: Seq<char>, s: Seq<char>, post: Seq<char>)
    requires
        is_blank(pre),
        is_blank(post),
    ensures
        trimmed(pre + s + post) == trimmed(s),
{
    assert(pre + s + post =~= pre + (s + post));
    blank_start_falls(pre, s + post);
    start_before_more(s, post);
    if trimmed_start(s).len() > 0 {
        blank_end_falls(trimmed_start(s), post);
    } else {
        blank_start_falls(post, seq![]);
        assert(post + seq![] =~= post);
        assert(trimmed_start(s) =~= seq![]);
    }
}

/// A carriage return at the end of a line makes no difference once the line is
/// trimmed.
pub proof fn chomping_keeps_the_trimmed_line(line: Seq<char>)
    ensures
        trimmed(chomped(line)) == trimmed(line),
{
    if line.len() > 0 && line.last() == '\r' {
        let post = seq!['\r'];
        blanks_around_are_trimmed(seq![], line.drop_last(), post);
        assert(seq![] + line.drop_last() + post =~= line);
    }
}

// ---------------------------------------------------------------------------
// Words
// ---------------------------------------------------------------------------

/// The words of `s` from position `from` on.
pub open spec fn words_from(s: Seq<char>, from: int) -> Seq<Seq<char>>
    decreases s.len() - from,
{
    let start = next_stop(s, from, Stop::Ink);
    if from < 0 || !(from <= start < s.len()) {
        seq![]
    } else {
        let end = next_stop(s, start, Stop::Space);
        if start < end <= s.len() {
            seq![s.subrange(start, end)] + words_from(s, end)
        } else {
            seq![]
        }
    }
}

/// The words of a text: its maximal runs of characters other than white space.
pub open spec fn words_of(s: Seq<char>) -> Seq<Seq<char>> {
    words_from(s, 0)
}

/// The words of a text.
pub fn words(s: &str) -> (r: Vec<String>)
    ensures
        views(r@) == words_of(s@),
{
    let chars: Vec<char> = chars_of(s);
    let mut out: Vec<String> = Vec::new();
    let mut from: usize = scan(&chars, 0, Stop::Ink);
    assert(words_from(chars@, 0) == words_from(chars@, from as int)) by {
        next_stop_is_first(chars@, from as int, Stop::Ink);
    }
    while from < chars.len()
        invariant
            from <= chars.len(),
            from < chars.len() ==> !white_space(chars@[from as int]),
            words_of(chars@) == views(out@) + words_from(chars@, from as int),
        decreases chars.len() - from,
    {
        let ghost before = views(out@);
        let end: usize = scan(&chars, from, Stop::Space);
        let next: usize = scan(&chars, end, Stop::Ink);
        let word: String = text_of(&chars, from, end);
        out.push(word);
        proof {
            let piece = chars@.subrange(from as int, end as int);
            assert(words_from(chars@, from as int) == seq![piece] + words_from(
                chars@,
                end as int,
            ));
            assert(words_from(chars@, end as int) == words_from(chars@, next as int)) by {
                next_stop_is_first(chars@, next as int, Stop::Ink);
            }
            assert(views(out@) =~= before.push(piece));
            assert(before + (seq![piece] + words_from(chars@, next as int)) =~= views(out@)
                + words_from(chars@, next as int));
        }
        from = next;
    }
    assert(views(out@) + words_from(chars@, from as int) =~= views(out@));
    out
}

// ---------------------------------------------------------------------------
// Comma-separated fields
// ---------------------------------------------------------------------------

/// The trimmed comma-separated fields of `s` from position `from` on.
pub open spec fn fields_from(s: Seq<char>, from: int) -> Seq<Seq<char>>
    decreases s.len() - from,
{
    let end = next_stop(s, from, Stop::At(','));
    if 0 <= from <= end < s.len() {
        seq![trimmed(s.subrange(from, end))] + fields_from(s, end + 1)
    } else {
        seq![trimmed(s.subrange(from, s.len() as int))]
    }
}

/// The fields of a record: the text between commas, trimmed.
pub open spec fn fields_of(s: Seq<char>) -> Seq<Seq<char>> {
    fields_from(s, 0)
}

/// The fields of a record.
pub fn fields(s: &str) -> (r: Vec<String>)
    ensures
        views(r@) == fields_of(s@),
{
    let chars: Vec<char> = chars_of(s);
    let mut out: Vec<String> = Vec::new();
    let mut from: usize = 0;
    let mut end: usize = scan(&chars, 0, Stop::At(','));
    while end < chars.len()
        invariant
            from <= end <= chars.len(),
            end == next_stop(chars@, from as int, Stop::At(',')),
            fields_of(chars@) == views(out@) + fields_from(chars@, from as int),
        decreases chars.len() - end,
    {
        let ghost before = views(out@);
        let piece: String = text_of(&chars, from, end);
        let field: String = trim(piece.as_str());
        out.push(field);
        assert(views(out@) =~= before.push(field@));
        assert(before + (seq![field@] + fields_from(chars@, end + 1)) =~= views(out@)
            + fields_from(chars@, end + 1));
        from = end + 1;
        end = scan(&chars, from, Stop::At(','));
    }
    let ghost before = views(out@);
    let piece: String = text_of(&chars, from, chars.len());
    let field: String = trim(piece.as_str());
    out.push(field);
    assert(views(out@) =~= before + seq![field@]);
    out
}

// ---------------------------------------------------------------------------
// Joining
// ---------------------------------------------------------------------------

/// The texts of `list` with one space between neighbours.
pub open spec fn joined(list: Seq<Seq<char>>) -> Seq<char>
    decreases list.len(),
{
    if list.len() == 0 {
        seq![]
    } else if list.len() == 1 {
        list[0]
    } else {
        joined(list.drop_last()) + seq![' '] + list.last()
    }
}

/// The texts of `list` with one space between neighbours.
pub fn join(list: &Vec<String>) -> (r: String)
    ensures
        r@ == joined(views(list@)),
{
    let mut out: String = String::new();
    let mut i: usize = 0;
    let ghost all = views(list@);
    while i < list.len()
        invariant
            i <= list.len(),
            all == views(list@),
            out@ == joined(all.take(i as int)),
        decreases list.len() - i,
    {
        let ghost done = all.take(i as int);
        let ghost more = all.take(i + 1);
        assert(more.drop_last() =~= done);
        assert(more.last() == list@[i as int]@);
        let ghost shown = out@;
        if i > 0 {
            out.push(' ');
            out.append(list[i].as_str());
            assert(out@ =~= shown + seq![' '] + list@[i as int]@);
        } else {
            out.append(list[i].as_str());
            assert(out@ =~= list@[i as int]@);
        }
        i += 1;
    }
    assert(all.take(all.len() as int) =~= all);
    out
}

/// A text that stands as one word: not empty and without white space.
pub open spec fn is_word(w: Seq<char>) -> bool {
    &&& w.len() > 0
    &&& forall|i: int| 0 <= i < w.len() ==> !white_space(#[trigger] w[i])
}

proof fn next_stop_across(a: Seq<char>, b: Seq<char>, from: int, stop: Stop)
    requires
        0 <= from <= a.len(),
        next_stop(a, from, stop) == a.len(),
    ensures
        next_stop(a + b, from, stop) == next_stop(a + b, a.len() as int, stop),
    decreases a.len() - from,
{
    if from < a.len() {
        assert((a + b)[from] == a[from]);
        next_stop_is_first(a, from, stop);
        next_stop_across(a, b, from + 1, stop);
    }
}

proof fn word_runs_on(s: Seq<char>, from: int)
    requires
        0 <= from <= s.len(),
        forall|i: int| from <= i < s.len() ==> !white_space(#[trigger] s[i]),
    ensures
        next_stop(s, from, Stop::Space) == s.len(),
    decreases s.len() - from,
{
    if from < s.len() {
        word_runs_on(s, from + 1);
    }
}

proof fn word_after_space(a: Seq<char>, w: Seq<char>, from: int)
    requires
        0 <= from <= a.len(),
        is_word(w),
    ensures
        words_from(a + (seq![' '] + w), from) == words_from(a, from).push(w),
    decreases a.len() - from,
{
    let b = seq![' '] + w;
    let s = a + b;
    let start = next_stop(a, from, Stop::Ink);
    next_stop_is_first(a, from, Stop::Ink);
    if start < a.len() {
        next_stop_in_front(a, b, from, Stop::Ink);
        let end = next_stop(a, start, Stop::Space);
        next_stop_is_first(a, start, Stop::Space);
        assert(end > start);
        assert(next_stop(s, start, Stop::Space) == end) by {
            if end < a.len() {
                next_stop_in_front(a, b, start, Stop::Space);
            } else {
                next_stop_across(a, b, start, Stop::Space);
                assert(s[a.len() as int] == ' ');
            }
        }
        assert(s.subrange(start, end) =~= a.subrange(start, end));
        word_after_space(a, w, end);
        let piece = seq![a.subrange(start, end)];
        assert(piece + words_from(a, end).push(w) =~= (piece + words_from(a, end)).push(w));
    } else {
        next_stop_across(a, b, from, Stop::Ink);
        let first = a.len() + 1;
        assert(s[a.len() as int] == ' ');
        assert(s[first as int] == w[0]);
        assert(next_stop(s, first as int, Stop::Ink) == first);
        assert(next_stop(s, from, Stop::Ink) == first);
        assert forall|i: int| first <= i < s.len() implies !white_space(#[trigger] s[i]) by {
            assert(s[i] == w[i - first]);
        }
        word_runs_on(s, first as int);
        assert(s.subrange(first as int, s.len() as int) =~= w);
        assert(words_from(s, s.len() as int) =~= seq![]);
        assert(words_from(a, from) =~= seq![]);
        assert(seq![w] + seq![] =~= words_from(a, from).push(w));
    }
}

/// Words joined by spaces come apart again as they were.
pub proof fn joined_words_come_apart(list: Seq<Seq<char>>)
    requires
        forall|i: int| 0 <= i < list.len() ==> is_word(#[trigger] list[i]),
    ensures
        words_of(joined(list)) == list,
    decreases list.len(),
{
    if list.len() == 0 {
        assert(words_of(seq![]) =~= list);
    } else if list.len() == 1 {
        let w = list[0];
        word_runs_on(w, 0);
        assert(next_stop(w, 0, Stop::Ink) == 0);
        assert(w.subrange(0, w.len() as int) =~= w);
        assert(words_from(w, w.len() as int) =~= seq![]);
        assert(words_of(w) =~= list);
    } else {
        let front = list.drop_last();
        assert forall|i: int| 0 <= i < front.len() implies is_word(#[trigger] front[i]) by {
            assert(front[i] == list[i]);
        }
        joined_words_come_apart(front);
        word_after_space(joined(front), list.last(), 0);
        assert(joined(front) + (seq![' '] + list.last()) =~= joined(list));
        assert(front.push(list.last()) =~= list);
    }
}

// ---------------------------------------------------------------------------
// What comes apart how
// ---------------------------------------------------------------------------

/// A text comes apart into lines one by one: what stands before the first line
/// feed is a line, without a carriage return at its end, and the rest comes apart
/// on its own. What stands after the last line feed is a line as it stands, if
/// anything does.
pub proof fn lines_come_one_by_one(line: Seq<char>, rest: Seq<char>)
    requires
        !line.contains('\n'),
    ensures
        !(line.len() > 0 && line[line.len() - 1] == '\r') ==> lines_of(line.push('\n') + rest)
            == seq![line] + lines_of(rest),
        lines_of(line.push('\r').push('\n') + rest) == seq![line] + lines_of(rest),
        line.len() > 0 ==> lines_of(line) == seq![line],
        lines_of(seq![]) == Seq::<Seq<char>>::empty(),
{
    lines_append(line.push('\n'), rest);
    one_line(line);
    let back = line.push('\r');
    assert forall|i: int| 0 <= i < back.len() implies back[i] != '\n' by {
        if i < line.len() {
            assert(line.contains(line[i]));
        }
    }
    lines_append(back.push('\n'), rest);
    one_line(back);
    assert(back.drop_last() =~= line);
    open_line(line);
}

/// Trimming takes the white space off both ends, and no more: what is left stands
/// in the text with nothing but white space on either side, and neither begins
/// nor ends with any.
pub proof fn trimming_leaves_what_stands_between_blanks(s: Seq<char>)
    ensures
        exists|from: int, to: int|
            {
                &&& 0 <= from <= to <= s.len()
                &&& trimmed(s) == #[trigger] s.subrange(from, to)
                &&& forall|i: int| 0 <= i < from ==> white_space(#[trigger] s[i])
                &&& forall|i: int| to <= i < s.len() ==> white_space(#[trigger] s[i])
                &&& from < to ==> !white_space(s[from]) && !white_space(s[to - 1])
            },
{
    let start = trimmed_start(s);
    let from = start_is_skipped(s);
    let len = end_is_dropped(start);
    let to = from + len;
    assert(start == s.skip(from));
    assert(trimmed(s) =~= s.subrange(from, to));
    assert forall|i: int| to <= i < s.len() implies white_space(#[trigger] s[i]) by {
        assert(s[i] == start[i - from]);
    }
    if from < to {
        assert(s[from] == start[0]);
        assert(s[to - 1] == start[len - 1]);
    }
}

proof fn start_is_skipped(s: Seq<char>) -> (from: int)
    ensures
        0 <= from <= s.len(),
        trimmed_start(s) == s.skip(from),
        forall|i: int| 0 <= i < from ==> white_space(#[trigger] s[i]),
        from < s.len() ==> !white_space(s[from]),
    decreases s.len(),
{
    if s.len() > 0 && white_space(s.first()) {
        let rest = s.drop_first();
        let from = start_is_skipped(rest) + 1;
        assert(s.skip(from) =~= rest.skip(from - 1));
        assert forall|i: int| 0 <= i < from implies white_space(#[trigger] s[i]) by {
            if i > 0 {
                assert(s[i] == rest[i - 1]);
            }
        }
        from
    } else {
        assert(s.skip(0) =~= s);
        0
    }
}

proof fn end_is_dropped(s: Seq<char>) -> (to: int)
    ensures
        0 <= to <= s.len(),
        trimmed_end(s) == s.take(to),
        forall|i: int| to <= i < s.len() ==> white_space(#[trigger] s[i]),
        to > 0 ==> !white_space(s[to - 1]),
    decreases s.len(),
{
    if s.len() > 0 && white_space(s.last()) {
        let rest = s.drop_last();
        let to = end_is_dropped(rest);
        assert(s.take(to) =~= rest.take(to));
        assert forall|i: int| to <= i < s.len() implies white_space(#[trigger] s[i]) by {
            if i < rest.len() {
                assert(s[i] == rest[i]);
            }
        }
        to
    } else {
        assert(s.take(s.len() as int) =~= s);
        s.len() as int
    }
}

/// A text comes apart into words one by one: blanks hold none, and the first word
/// after some blanks, up to the next white space or the end, is followed by the
/// words of the rest.
pub proof fn words_come_one_by_one(blank: Seq<char>, word: Seq<char>, rest: Seq<char>)
    requires
        is_blank(blank),
        word.len() > 0,
        forall|i: int| 0 <= i < word.len() ==> !white_space(#[trigger] word[i]),
        rest.len() > 0 ==> white_space(rest[0]),
    ensures
        words_of(blank) == Seq::<Seq<char>>::empty(),
        words_of(blank + word + rest) == seq![word] + words_of(rest),
{
    blanks_run_on(blank, 0);
    assert(words_of(blank) =~= seq![]);
    let s = blank + word + rest;
    let start = blank.len() as int;
    let end = start + word.len();
    assert(next_stop(s, 0, Stop::Ink) == start) by {
        assert(s =~= blank + (word + rest));
        next_stop_across(blank, word + rest, 0, Stop::Ink);
        assert(s[start] == word[0]);
    }
    assert(next_stop(s, start, Stop::Space) == end) by {
        let front = blank + word;
        assert forall|i: int| start <= i < front.len() implies !white_space(
            #[trigger] front[i],
        ) by {
            assert(front[i] == word[i - start]);
        }
        word_runs_on(front, start);
        next_stop_across(front, rest, start, Stop::Space);
        if rest.len() > 0 {
            assert(s[end] == rest[0]);
        }
    }
    assert(s.subrange(start, end) =~= word);
    words_behind(blank + word, rest, 0);
}

proof fn blanks_run_on(s: Seq<char>, from: int)
    requires
        0 <= from <= s.len(),
        is_blank(s),
    ensures
        next_stop(s, from, Stop::Ink) == s.len(),
    decreases s.len() - from,
{
    if from < s.len() {
        blanks_run_on(s, from + 1);
    }
}

proof fn words_behind(a: Seq<char>, b: Seq<char>, from: int)
    requires
        0 <= from <= b.len(),
    ensures
        words_from(a + b, a.len() + from) == words_from(b, from),
    decreases b.len() - from,
{
    let start = next_stop(b, from, Stop::Ink);
    next_stop_is_first(b, from, Stop::Ink);
    next_stop_behind(a, b, from, Stop::Ink);
    if start < b.len() {
        let end = next_stop(b, start, Stop::Space);
        next_stop_is_first(b, start, Stop::Space);
        next_stop_behind(a, b, start, Stop::Space);
        assert(end > start);
        assert((a + b).subrange(a.len() + start, a.len() + end) =~= b.subrange(start, end));
        words_behind(a, b, end);
    }
}

/// A line comes apart into fields one by one: what stands before the first comma
/// is a field, without the white space around it, and the rest comes apart on its
/// own. A line without a comma is one field.
pub proof fn fields_come_one_by_one(field: Seq<char>, rest: Seq<char>)
    requires
        !field.contains(','),
    ensures
        fields_of(field) == seq![trimmed(field)],
        fields_of(field.push(',') + rest) == seq![trimmed(field)] + fields_of(rest),
{
    let comma = Stop::At(',');
    next_stop_is_first(field, 0, comma);
    if next_stop(field, 0, comma) < field.len() {
        assert(field.contains(field[next_stop(field, 0, comma)]));
    }
    assert(field.subrange(0, field.len() as int) =~= field);
    let s = field.push(',') + rest;
    let end = field.len() as int;
    assert(s =~= field + (seq![','] + rest));
    next_stop_across(field, seq![','] + rest, 0, comma);
    assert(s[end] == ',');
    assert(next_stop(s, 0, comma) == end);
    assert(s.subrange(0, end) =~= field);
    fields_behind(field.push(','), rest, 0);
}

proof fn fields_behind(a: Seq<char>, b: Seq<char>, from: int)
    requires
        0 <= from <= b.len(),
    ensures
        fields_from(a + b, a.len() + from) == fields_from(b, from),
    decreases b.len() - from,
{
    let end = next_stop(b, from, Stop::At(','));
    next_stop_is_first(b, from, Stop::At(','));
    next_stop_behind(a, b, from, Stop::At(','));
    if end < b.len() {
        assert((a + b).subrange(a.len() + from, a.len() + end) =~= b.subrange(from, end));
        fields_behind(a, b, end + 1);
    } else {
        assert((a + b).subrange(a.len() + from, (a + b).len() as int) =~= b.subrange(
            from,
            b.len() as int,
        ));
    }
}

/// A carriage return at the end of a line changes none of its fields.
pub proof fn fields_ignore_a_carriage_return(line: Seq<char>)
    ensures
        fields_of(line.push('\r')) == fields_of(line),
    decreases line.len(),
{
    let comma = Stop::At(',');
    let end = next_stop(line, 0, comma);
    next_stop_is_first(line, 0, comma);
    if end < line.len() {
        let field = line.take(end);
        let rest = line.skip(end + 1);
        assert(!field.contains(','));
        assert(field.push(',') + rest =~= line);
        assert(field.push(',') + rest.push('\r') =~= line.push('\r'));
        fields_come_one_by_one(field, rest);
        fields_come_one_by_one(field, rest.push('\r'));
        fields_ignore_a_carriage_return(rest);
    } else {
        assert(!line.contains(','));
        assert(!line.push('\r').contains(',')) by {
            assert forall|i: int| 0 <= i <= line.len() implies line.push('\r')[i] != ',' by {
                if i < line.len() {
                    assert(line.contains(line[i]));
                }
            }
        }
        fields_come_one_by_one(line, seq![]);
        fields_come_one_by_one(line.push('\r'), seq![]);
        chomping_keeps_the_trimmed_line(line.push('\r'));
        assert(line.push('\r').drop_last() =~= line);
    }
}

/// Joined texts stand in their order with one space between any two, however
/// many were joined before and after it.
pub proof fn joining_goes_piece_by_piece(a: Seq<Seq<char>>, b: Seq<Seq<char>>, piece: Seq<char>)
    ensures
        joined(seq![]) == Seq::<char>::empty(),
        joined(seq![piece]) == piece,
        a.len() > 0 && b.len() > 0 ==> joined(a + b) == joined(a) + seq![' '] + joined(b),
    decreases b.len(),
{
    if a.len() > 0 && b.len() > 0 {
        let front = b.drop_last();
        assert((a + b).drop_last() =~= a + front);
        assert((a + b).last() == b.last());
        if front.len() > 0 {
            joining_goes_piece_by_piece(a, front, piece);
            assert(joined(a) + seq![' '] + joined(front) + seq![' '] + b.last() =~= joined(a)
                + seq![' '] + joined(b));
        } else {
            assert(a + front =~= a);
        }
    }
}

} // verus!
