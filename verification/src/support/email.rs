//! Raw emails: headers, the plain text body and the attachments of a
//! multipart message.
use vstd::prelude::*;
use vstd::string::StrSliceExecFns;
use base64::Engine;
use crate::chars::{
    blank_line, chars_blank_line, chars_find, find_from, chars_find_param_end, chars_lines, chars_skip_bytes,
    chars_split, chars_start_with, chars_trim, chars_trim_start, find_char, find_param_end,
    find_text, is_ws, lines, skip_bytes, slice_chars, split_text, starts_with, trim, trim_start,
    views,
};
use crate::text::{chars_contain, contains_text, lowercase_text, str_chars, string_of, to_lowercase};
use crate::time::{Timestamp, utc_now};

verus! {

/// What `String::from_utf8_lossy` makes of the bytes: the text they encode,
/// each invalid sequence replaced by U+FFFD.
pub uninterp spec fn lossy_text(bytes: Seq<u8>) -> Seq<char>;

/// What `DateTime::parse_from_rfc2822` gives for the text, as a UTC instant;
/// `None` where the text is not an RFC 2822 date.
pub uninterp spec fn rfc2822_instant(s: Seq<char>) -> Option<Timestamp>;

/// What `BASE64_STANDARD.decode` gives for the text; `None` where it is not
/// valid standard base64.
pub uninterp spec fn base64_standard_decode(s: Seq<char>) -> Option<Seq<u8>>;

/// `String::from_utf8_lossy`: the text the bytes encode, invalid sequences
/// replaced; valid UTF-8 comes back as the text it encodes.
#[verifier::external_body]
fn utf8_lossy(bytes: &[u8]) -> (r: String)
    ensures
        r@ == lossy_text(bytes@),
        vstd::utf8::valid_utf8(bytes@) ==> r@ == vstd::utf8::decode_utf8(bytes@),
{
    String::from_utf8_lossy(bytes).into_owned()
}

/// `DateTime::parse_from_rfc2822(s)` taken to UTC.
#[verifier::external_body]
fn parse_rfc2822(s: &str) -> (r: Option<Timestamp>)
    ensures
        r == rfc2822_instant(s@),
{
    match chrono::DateTime::parse_from_rfc2822(s) {
        Ok(d) => {
            let u = d.with_timezone(&chrono::Utc);
            Some(Timestamp { secs: u.timestamp(), nanos: u.timestamp_subsec_nanos() })
        },
        Err(_) => None,
    }
}

/// `base64::prelude::BASE64_STANDARD.decode(s)`; `None` for invalid input.
#[verifier::external_body]
fn base64_decode(s: &str) -> (r: Option<Vec<u8>>)
    ensures
        match r {
            Some(v) => base64_standard_decode(s@) == Some(v@),
            None => base64_standard_decode(s@) is None,
        },
{
    base64::prelude::BASE64_STANDARD.decode(s).ok()
}

/// A parsed email.
#[derive(Clone, Debug)]
pub struct ParsedEmail {
    pub from: String,
    pub to: String,
    pub subject: String,
    pub date: Timestamp,
    pub body: String,
    pub attachments: Vec<(String, String, Vec<u8>)>,
}

/// An attachment as plain values: file name, content type, data.
pub type AttachmentView = (Seq<char>, Seq<char>, Seq<u8>);

/// The attachments as plain values.
pub open spec fn attachment_views(a: Seq<(String, String, Vec<u8>)>) -> Seq<AttachmentView> {
    a.map_values(|x: (String, String, Vec<u8>)| (x.0@, x.1@, x.2@))
}

/// The boundary named in a `Content-Type` value: the text after the first
/// `boundary=`, trimmed, either up to the next `"` where it opens with one
/// (none where that quote is not closed), or else up to a `;` or whitespace.
pub open spec fn boundary_of(ct: Seq<char>) -> Option<Seq<char>> {
    match find_text(ct, "boundary="@) {
        None => None,
        Some(pos) => {
            let rem = trim(ct.skip((pos + 9) as int));
            if rem.len() > 0 && rem[0] == '"' {
                let inner = rem.skip(1);
                match find_char(inner, '"') {
                    Some(e) => Some(inner.take(e as int)),
                    None => None,
                }
            } else {
                let e = match find_param_end(rem, 0) {
                    Some(e) => e,
                    None => rem.len(),
                };
                Some(rem.take(e as int))
            }
        },
    }
}

fn boundary_of_chars(ct: &Vec<char>) -> (r: Option<Vec<char>>)
    ensures
        match r {
            Some(v) => boundary_of(ct@) == Some(v@),
            None => boundary_of(ct@) is None,
        },
{
    let pat = str_chars("boundary=");
    proof {
        reveal_strlit("boundary=");
        assert(pat@.len() == 9);
    }
    match chars_find(ct, &pat) {
        None => None,
        Some(pos) => {
            proof {
                crate::chars::lemma_find_from_bound(ct@, pat@, 0);
                assert(find_from(ct@, pat@, 0) == Some(pos as nat));
                assert(pos + pat@.len() <= ct@.len());
                assert(pat@.len() == 9);
                assert(pos + 9 <= ct.len());
            }
            let after = slice_chars(ct, pos + 9, ct.len());
            let rem = chars_trim(&after);
            proof {
                assert(after@ =~= ct@.skip(pos + 9));
            }
            if rem.len() > 0 && rem[0] == '"' {
                let inner = slice_chars(&rem, 1, rem.len());
                let quote: Vec<char> = vec!['"'];
                proof {
                    assert(inner@ =~= rem@.skip(1));
                    assert(quote@ =~= seq!['"']);
                }
                match chars_find(&inner, &quote) {
                    Some(e) => {
                        proof {
                            crate::chars::lemma_find_from_bound(inner@, quote@, 0);
                        }
                        let b = slice_chars(&inner, 0, e);
                        proof {
                            assert(b@ =~= inner@.take(e as int));
                        }
                        Some(b)
                    },
                    None => None,
                }
            } else {
                let e = match chars_find_param_end(&rem) {
                    Some(e) => {
                        proof {
                            lemma_param_end_bound(rem@, 0);
                        }
                        e
                    },
                    None => rem.len(),
                };
                let b = slice_chars(&rem, 0, e);
                proof {
                    assert(b@ =~= rem@.take(e as int));
                }
                Some(b)
            }
        },
    }
}

proof fn lemma_param_end_bound(s: Seq<char>, i: int)
    ensures
        find_param_end(s, i) matches Some(k) ==> k < s.len(),
    decreases s.len() - i,
{
    if !(i < 0 || i >= s.len()) && !(s[i] == ';' || is_ws(s[i])) {
        lemma_param_end_bound(s, i + 1);
    }
}

/// Extracts the boundary marker from a `Content-Type` header.
pub fn extract_boundary(content_type: &str) -> (r: Option<String>)
    ensures
        match r {
            Some(b) => boundary_of(content_type@) == Some(b@),
            None => boundary_of(content_type@) is None,
        },
{
    let ct = str_chars(content_type);
    match boundary_of_chars(&ct) {
        Some(b) => Some(string_of(&b)),
        None => None,
    }
}

/// The headers read so far: from, to, subject, the date of the last
/// readable `Date` header, and the boundary of the last `Content-Type`
/// header that names one.
pub type HeaderState = (Seq<char>, Seq<char>, Seq<char>, Option<Timestamp>, Option<Seq<char>>);

/// One header line read into the state.  A line is matched by its lowercase
/// form and cut at the byte length of its key; `None` where that cut falls
/// inside a character or past the end (where `str` slicing panics).
pub open spec fn header_step(st: HeaderState, line: Seq<char>) -> Option<HeaderState> {
    let l = lowercase_text(line);
    if starts_with(l, "from:"@) {
        match skip_bytes(line, 5) {
            Some(rest) => Some((trim(rest), st.1, st.2, st.3, st.4)),
            None => None,
        }
    } else if starts_with(l, "to:"@) {
        match skip_bytes(line, 3) {
            Some(rest) => Some((st.0, trim(rest), st.2, st.3, st.4)),
            None => None,
        }
    } else if starts_with(l, "subject:"@) {
        match skip_bytes(line, 8) {
            Some(rest) => Some((st.0, st.1, trim(rest), st.3, st.4)),
            None => None,
        }
    } else if starts_with(l, "date:"@) {
        match skip_bytes(line, 5) {
            Some(rest) => Some(
                (
                    st.0,
                    st.1,
                    st.2,
                    match rfc2822_instant(trim(rest)) {
                        Some(t) => Some(t),
                        None => st.3,
                    },
                    st.4,
                ),
            ),
            None => None,
        }
    } else if starts_with(l, "content-type:"@) {
        Some(
            (
                st.0,
                st.1,
                st.2,
                st.3,
                match boundary_of(line) {
                    Some(b) => Some(b),
                    None => st.4,
                },
            ),
        )
    } else {
        Some(st)
    }
}

/// The header lines read in order from empty values; `None` where a line panics.
pub open spec fn read_headers(ls: Seq<Seq<char>>, k: nat) -> Option<HeaderState>
    decreases k,
{
    if k == 0 {
        Some((Seq::empty(), Seq::empty(), Seq::empty(), None, None))
    } else {
        match read_headers(ls, (k - 1) as nat) {
            Some(st) => header_step(st, ls[k - 1]),
            None => None,
        }
    }
}

/// The headers of a part read so far: file name, content type, base64.
pub type PartState = (Option<Seq<char>>, Seq<char>, bool);

/// The file name in a `Content-Disposition` line: the text after the byte
/// position where `filename=` ends in the lowercase line, trimmed, without
/// its quotes where it is quoted (kept whole where the closing quote is
/// missing); `None` where that position cannot cut the line.
pub open spec fn file_name_at(line: Seq<char>, lower: Seq<char>, name_pos: nat) -> Option<Seq<char>> {
    match skip_bytes(line, crate::chars::utf8_len(lower, name_pos) + 9) {
        None => None,
        Some(rest) => {
            let rem = trim(rest);
            if rem.len() > 0 && rem[0] == '"' {
                let inner = rem.skip(1);
                match find_char(inner, '"') {
                    Some(e) => Some(inner.take(e as int)),
                    None => Some(rem),
                }
            } else {
                Some(rem)
            }
        },
    }
}

/// One header line of a part read into the part's state; `None` where a cut
/// of the line panics.
pub open spec fn part_header_step(st: PartState, line: Seq<char>) -> Option<PartState> {
    let l = lowercase_text(line);
    if starts_with(l, "content-type:"@) {
        match skip_bytes(line, 13) {
            Some(rest) => Some((st.0, trim(rest), st.2)),
            None => None,
        }
    } else if starts_with(l, "content-disposition:"@) {
        match find_text(l, "filename="@) {
            None => Some(st),
            Some(pos) => match file_name_at(line, l, pos) {
                Some(f) => Some((Some(f), st.1, st.2)),
                None => None,
            },
        }
    } else if starts_with(l, "content-transfer-encoding:"@) && contains_text(l, "base64"@) {
        Some((st.0, st.1, true))
    } else {
        Some(st)
    }
}

/// The header lines of a part read in order; `None` where a line panics.
pub open spec fn read_part_headers(ls: Seq<Seq<char>>, k: nat) -> Option<PartState>
    decreases k,
{
    if k == 0 {
        Some((None, Seq::empty(), false))
    } else {
        match read_part_headers(ls, (k - 1) as nat) {
            Some(st) => part_header_step(st, ls[k - 1]),
            None => None,
        }
    }
}

/// The characters of `s` that are not whitespace.
pub open spec fn without_ws(s: Seq<char>) -> Seq<char>
    decreases s.len(),
{
    if s.len() == 0 {
        s
    } else if is_ws(s.last()) {
        without_ws(s.drop_last())
    } else {
        without_ws(s.drop_last()).push(s.last())
    }
}

/// The body and attachments read so far.
pub type BodyState = (Seq<char>, Seq<AttachmentView>);

/// One part of a multipart body read into the state.  A part is trimmed and
/// skipped when empty or `--` or without a blank line; a part with a file
/// name is an attachment (its body base64-decoded where so encoded, empty
/// where that fails, else its UTF-8 bytes); a part of no type or of a plain
/// text type is the body.
pub open spec fn part_step(st: BodyState, part: Seq<char>) -> Option<BodyState> {
    let p = trim(part);
    if p.len() == 0 || p == "--"@ {
        Some(st)
    } else {
        match blank_line(p) {
            None => Some(st),
            Some(i) => {
                let p_body = trim_start(p.skip(i as int));
                match read_part_headers(lines(p.take(i as int)), lines(p.take(i as int)).len()) {
                    None => None,
                    Some((name, ct, b64)) => match name {
                        Some(f) => {
                            let data = if b64 {
                                match base64_standard_decode(without_ws(p_body)) {
                                    Some(d) => d,
                                    None => Seq::empty(),
                                }
                            } else {
                                vstd::utf8::encode_utf8(p_body)
                            };
                            Some((st.0, st.1.push((f, ct, data))))
                        },
                        None => if ct.len() == 0 || contains_text(lowercase_text(ct), "text/plain"@) {
                            Some((trim(p_body), st.1))
                        } else {
                            Some(st)
                        },
                    },
                }
            },
        }
    }
}

/// The parts read in order; `None` where a part panics.
pub open spec fn read_parts(parts: Seq<Seq<char>>, k: nat) -> Option<BodyState>
    decreases k,
{
    if k == 0 {
        Some((Seq::empty(), Seq::empty()))
    } else {
        match read_parts(parts, (k - 1) as nat) {
            Some(st) => part_step(st, parts[k - 1]),
            None => None,
        }
    }
}

/// A parsed email as plain values: from, to, subject, the date of its
/// headers (if any could be read), body, attachments.
pub type EmailView = (Seq<char>, Seq<char>, Seq<char>, Option<Timestamp>, Seq<char>, Seq<AttachmentView>);

/// The parse of a raw email: its bytes read as UTF-8 (lossily); the headers
/// end at the first blank line (no email without one); the body after it,
/// its leading whitespace trimmed, is split at `--boundary` where the
/// headers name a boundary, else trimmed whole.  The outer `None` is where
/// reading a line panics.
pub open spec fn email_parse(raw: Seq<u8>) -> Option<Option<EmailView>> {
    let s = lossy_text(raw);
    match blank_line(s) {
        None => Some(None),
        Some(i) => {
            let headers = s.take(i as int);
            let body_part = trim_start(s.skip(i as int));
            match read_headers(lines(headers), lines(headers).len()) {
                None => None,
                Some((from, to, subject, date, boundary)) => match boundary {
                    Some(b) => {
                        let parts = split_text(body_part, "--"@ + b);
                        match read_parts(parts, parts.len()) {
                            None => None,
                            Some((body, atts)) => Some(Some((from, to, subject, date, body, atts))),
                        }
                    },
                    None => Some(Some((from, to, subject, date, trim(body_part), Seq::empty()))),
                },
            }
        },
    }
}

/// The email as plain values, its date as given.
pub open spec fn email_view(e: ParsedEmail) -> (Seq<char>, Seq<char>, Seq<char>, Timestamp, Seq<char>, Seq<AttachmentView>) {
    (e.from@, e.to@, e.subject@, e.date, e.body@, attachment_views(e.attachments@))
}

/// Whether `e` is the parse `v`, dated `now` where no date could be read.
pub open spec fn parsed_as(e: ParsedEmail, v: EmailView, now: Timestamp) -> bool {
    email_view(e) == (v.0, v.1, v.2, match v.3 {
        Some(t) => t,
        None => now,
    }, v.4, v.5)
}

fn lower_chars(line: &Vec<char>) -> (r: Vec<char>)
    ensures
        r@ == lowercase_text(line@),
{
    let s = string_of(line);
    let l = to_lowercase(s.as_str());
    str_chars(l.as_str())
}

fn header_step_exec(
    from: &mut Vec<char>,
    to: &mut Vec<char>,
    subject: &mut Vec<char>,
    date: &mut Option<Timestamp>,
    boundary: &mut Option<Vec<char>>,
    line: &Vec<char>,
) -> (ok: bool)
    ensures
        header_step(
            (old(from)@, old(to)@, old(subject)@, *old(date), match *old(boundary) {
                Some(b) => Some(b@),
                None => None,
            }),
            line@,
        ) == if ok {
            Some(
                (final(from)@, final(to)@, final(subject)@, *final(date), match *final(boundary) {
                    Some(b) => Some(b@),
                    None => None,
                }),
            )
        } else {
            None
        },
{
    let l = lower_chars(line);
    let k_from = str_chars("from:");
    let k_to = str_chars("to:");
    let k_subject = str_chars("subject:");
    let k_date = str_chars("date:");
    let k_ct = str_chars("content-type:");
    if chars_start_with(&l, &k_from) {
        match chars_skip_bytes(line, 5) {
            Some(rest) => {
                *from = chars_trim(&rest);
                true
            },
            None => false,
        }
    } else if chars_start_with(&l, &k_to) {
        match chars_skip_bytes(line, 3) {
            Some(rest) => {
                *to = chars_trim(&rest);
                true
            },
            None => false,
        }
    } else if chars_start_with(&l, &k_subject) {
        match chars_skip_bytes(line, 8) {
            Some(rest) => {
                *subject = chars_trim(&rest);
                true
            },
            None => false,
        }
    } else if chars_start_with(&l, &k_date) {
        match chars_skip_bytes(line, 5) {
            Some(rest) => {
                let t = chars_trim(&rest);
                let ts = string_of(&t);
                match parse_rfc2822(ts.as_str()) {
                    Some(d) => {
                        *date = Some(d);
                    },
                    None => {},
                }
                true
            },
            None => false,
        }
    } else if chars_start_with(&l, &k_ct) {
        match boundary_of_chars(line) {
            Some(b) => {
                *boundary = Some(b);
            },
            None => {},
        }
        true
    } else {
        true
    }
}

fn without_ws_chars(s: &Vec<char>) -> (r: Vec<char>)
    ensures
        r@ == without_ws(s@),
{
    let mut out: Vec<char> = Vec::new();
    let mut i: usize = 0;
    while i < s.len()
        invariant
            i <= s.len(),
            out@ == without_ws(s@.take(i as int)),
        decreases s.len() - i,
    {
        let ghost before = s@.take(i as int);
        proof {
            assert(s@.take(i + 1).drop_last() =~= before);
            assert(s@.take(i + 1).last() == s@[i as int]);
        }
        if !crate::chars::char_is_ws(s[i]) {
            out.push(s[i]);
        }
        i += 1;
    }
    proof {
        assert(s@.take(s.len() as int) =~= s@);
    }
    out
}

fn part_header_step_exec(
    name: &mut Option<Vec<char>>,
    ct: &mut Vec<char>,
    b64: &mut bool,
    line: &Vec<char>,
) -> (ok: bool)
    ensures
        part_header_step(
            (match *old(name) {
                Some(n) => Some(n@),
                None => None,
            }, old(ct)@, *old(b64)),
            line@,
        ) == if ok {
            Some(
                (match *final(name) {
                    Some(n) => Some(n@),
                    None => None,
                }, final(ct)@, *final(b64)),
            )
        } else {
            None
        },
{
    let l = lower_chars(line);
    let k_ct = str_chars("content-type:");
    let k_cd = str_chars("content-disposition:");
    let k_fn = str_chars("filename=");
    let k_cte = str_chars("content-transfer-encoding:");
    let k_b64 = str_chars("base64");
    if chars_start_with(&l, &k_ct) {
        match chars_skip_bytes(line, 13) {
            Some(rest) => {
                *ct = chars_trim(&rest);
                true
            },
            None => false,
        }
    } else if chars_start_with(&l, &k_cd) {
        match chars_find(&l, &k_fn) {
            None => true,
            Some(pos) => {
                proof {
                    crate::chars::lemma_find_from_bound(l@, k_fn@, 0);
                }
                let start = crate::chars::chars_utf8_len(&l, pos);
                match chars_skip_bytes(line, start + 9) {
                    None => false,
                    Some(rest) => {
                        let rem = chars_trim(&rest);
                        let quote: Vec<char> = vec!['"'];
                        proof {
                            assert(quote@ =~= seq!['"']);
                        }
                        let f = if rem.len() > 0 && rem[0] == '"' {
                            let inner = slice_chars(&rem, 1, rem.len());
                            proof {
                                assert(inner@ =~= rem@.skip(1));
                            }
                            match chars_find(&inner, &quote) {
                                Some(e) => {
                                    proof {
                                        crate::chars::lemma_find_from_bound(inner@, quote@, 0);
                                    }
                                    let v = slice_chars(&inner, 0, e);
                                    proof {
                                        assert(v@ =~= inner@.take(e as int));
                                    }
                                    v
                                },
                                None => rem,
                            }
                        } else {
                            rem
                        };
                        *name = Some(f);
                        true
                    },
                }
            },
        }
    } else if chars_start_with(&l, &k_cte) && chars_contain(&l, &k_b64) {
        *b64 = true;
        true
    } else {
        true
    }
}

fn part_step_exec(body: &mut Vec<char>, atts: &mut Vec<(String, String, Vec<u8>)>, part: &Vec<char>) -> (ok: bool)
    ensures
        part_step((old(body)@, attachment_views(old(atts)@)), part@) == if ok {
            Some((final(body)@, attachment_views(final(atts)@)))
        } else {
            None
        },
{
    let dashes = str_chars("--");
    let p = chars_trim(part);
    let is_dashes = p.len() == dashes.len() && chars_start_with(&p, &dashes);
    proof {
        if p.len() == dashes.len() && starts_with(p@, dashes@) {
            assert(p@ =~= p@.take(dashes@.len() as int));
        }
        if p@ == dashes@ {
            assert(p@.take(p@.len() as int) =~= p@);
        }
    }
    if p.len() == 0 || is_dashes {
        return true;
    }
    assert(!(p@.len() == 0 || p@ == "--"@));
    let i = match chars_blank_line(&p) {
        None => {
            return true;
        },
        Some(i) => i,
    };
    proof {
        lemma_blank_line_bound(p@);
    }
    let head = slice_chars(&p, 0, i);
    let tail = slice_chars(&p, i, p.len());
    let p_body = chars_trim_start(&tail);
    proof {
        assert(head@ =~= p@.take(i as int));
        assert(tail@ =~= p@.skip(i as int));
    }
    let hl = chars_lines(&head);
    let mut name: Option<Vec<char>> = None;
    let mut ct: Vec<char> = Vec::new();
    let mut b64 = false;
    let mut j: usize = 0;
    let ghost hs = views(hl@);
    while j < hl.len()
        invariant
            j <= hl.len(),
            hs == views(hl@),
            hs == lines(p@.take(i as int)),
            p@ == trim(part@),
            blank_line(p@) == Some(i as nat),
            !(p@.len() == 0 || p@ == "--"@),
            read_part_headers(hs, j as nat) == Some(
                (match name {
                    Some(n) => Some(n@),
                    None => None,
                }, ct@, b64),
            ),
        decreases hl.len() - j,
    {
        proof {
            assert(hs[j as int] == hl@[j as int]@);
        }
        if !part_header_step_exec(&mut name, &mut ct, &mut b64, &hl[j]) {
            proof {
                lemma_part_headers_stay_none(hs, (j + 1) as nat, hs.len());
            }
            assert(hs == lines(p@.take(i as int)));
            assert(read_part_headers(lines(p@.take(i as int)), lines(p@.take(i as int)).len()) is None);
            return false;
        }
        j += 1;
    }
    match name {
        Some(f) => {
            let data = if b64 {
                let cleaned = without_ws_chars(&p_body);
                let cs = string_of(&cleaned);
                match base64_decode(cs.as_str()) {
                    Some(d) => d,
                    None => Vec::new(),
                }
            } else {
                let bs = string_of(&p_body);
                bs.as_str().as_bytes_vec()
            };
            let ghost before = atts@;
            let fname = string_of(&f);
            let ctype = string_of(&ct);
            atts.push((fname, ctype, data));
            proof {
                assert(attachment_views(atts@) =~= attachment_views(before).push((f@, ct@, data@)));
            }
        },
        None => {
            let ctl = lower_chars(&ct);
            let tp = str_chars("text/plain");
            if ct.len() == 0 || chars_contain(&ctl, &tp) {
                *body = chars_trim(&p_body);
            }
        },
    }
    true
}

/// The body and attachments of the parts; `None` where a part panics.
fn read_parts_exec(parts: &Vec<Vec<char>>) -> (r: Option<(Vec<char>, Vec<(String, String, Vec<u8>)>)>)
    ensures
        match r {
            Some((body, atts)) => read_parts(views(parts@), parts@.len()) == Some(
                (body@, attachment_views(atts@)),
            ),
            None => read_parts(views(parts@), parts@.len()) is None,
        },
{
    let ghost ps = views(parts@);
    let mut body: Vec<char> = Vec::new();
    let mut atts: Vec<(String, String, Vec<u8>)> = Vec::new();
    let mut k: usize = 0;
    proof {
        assert(attachment_views(atts@) =~= Seq::<AttachmentView>::empty());
    }
    while k < parts.len()
        invariant
            k <= parts.len(),
            ps == views(parts@),
            read_parts(ps, k as nat) == Some((body@, attachment_views(atts@))),
        decreases parts.len() - k,
    {
        proof {
            assert(ps[k as int] == parts@[k as int]@);
        }
        if !part_step_exec(&mut body, &mut atts, &parts[k]) {
            proof {
                lemma_parts_stay_none(ps, (k + 1) as nat, ps.len());
            }
            return None;
        }
        k += 1;
    }
    Some((body, atts))
}

proof fn lemma_blank_line_bound(s: Seq<char>)
    ensures
        blank_line(s) matches Some(i) ==> i <= s.len(),
{
    crate::chars::lemma_find_from_bound(s, seq!['\r', '\n', '\r', '\n'], 0);
    crate::chars::lemma_find_from_bound(s, seq!['\n', '\n'], 0);
}

proof fn lemma_part_headers_stay_none(ls: Seq<Seq<char>>, k: nat, n: nat)
    requires
        k <= n,
        read_part_headers(ls, k) is None,
    ensures
        read_part_headers(ls, n) is None,
    decreases n - k,
{
    if k < n {
        lemma_part_headers_stay_none(ls, k, (n - 1) as nat);
    }
}

proof fn lemma_parts_stay_none(ps: Seq<Seq<char>>, k: nat, n: nat)
    requires
        k <= n,
        read_parts(ps, k) is None,
    ensures
        read_parts(ps, n) is None,
    decreases n - k,
{
    if k < n {
        lemma_parts_stay_none(ps, k, (n - 1) as nat);
    }
}

proof fn lemma_headers_stay_none(ls: Seq<Seq<char>>, k: nat, n: nat)
    requires
        k <= n,
        read_headers(ls, k) is None,
    ensures
        read_headers(ls, n) is None,
    decreases n - k,
{
    if k < n {
        lemma_headers_stay_none(ls, k, (n - 1) as nat);
    }
}

/// Whether `r` is the parse of `raw` dated `now` where it has no readable
/// date: `None` for an email without a blank line after its headers.
pub open spec fn parse_outcome(raw: Seq<u8>, r: Option<ParsedEmail>, now: Timestamp) -> bool {
    match r {
        None => email_parse(raw) == Some(None::<EmailView>),
        Some(e) => email_parse(raw) matches Some(Some(v)) && parsed_as(e, v, now),
    }
}

/// Whether parsing the raw email runs without panicking: no header line is
/// cut inside a character.
pub open spec fn email_parse_ok(raw: Seq<u8>) -> bool {
    email_parse(raw) is Some
}

fn email_of(
    from: Vec<char>,
    to: Vec<char>,
    subject: Vec<char>,
    date: Timestamp,
    body: Vec<char>,
    attachments: Vec<(String, String, Vec<u8>)>,
) -> (r: ParsedEmail)
    ensures
        email_view(r) == (from@, to@, subject@, date, body@, attachment_views(attachments@)),
{
    ParsedEmail {
        from: string_of(&from),
        to: string_of(&to),
        subject: string_of(&subject),
        date,
        body: string_of(&body),
        attachments,
    }
}

/// Parses a raw email, dating it `now` where it has no readable `Date`
/// header: `None` for an email without a blank line after its headers; the
/// outer `None` where reading a header line would panic.
pub fn checked_parse_raw_email_at(raw: &[u8], now: Timestamp) -> (r: Option<Option<ParsedEmail>>)
    ensures
        match r {
            None => email_parse(raw@) is None,
            Some(None) => email_parse(raw@) == Some(None::<EmailView>),
            Some(Some(e)) => email_parse(raw@) matches Some(Some(v)) && parsed_as(e, v, now),
        },
{
    let text = utf8_lossy(raw);
    let s = str_chars(text.as_str());
    let i = match chars_blank_line(&s) {
        None => {
            return Some(None);
        },
        Some(i) => i,
    };
    proof {
        lemma_blank_line_bound(s@);
    }
    let headers = slice_chars(&s, 0, i);
    let tail = slice_chars(&s, i, s.len());
    let body_part = chars_trim_start(&tail);
    proof {
        assert(headers@ =~= s@.take(i as int));
        assert(tail@ =~= s@.skip(i as int));
    }
    let hl = chars_lines(&headers);
    let ghost hs = views(hl@);
    let mut from: Vec<char> = Vec::new();
    let mut to: Vec<char> = Vec::new();
    let mut subject: Vec<char> = Vec::new();
    let mut date: Option<Timestamp> = None;
    let mut boundary: Option<Vec<char>> = None;
    let mut j: usize = 0;
    while j < hl.len()
        invariant
            j <= hl.len(),
            hs == views(hl@),
            hs == lines(s@.take(i as int)),
            s@ == lossy_text(raw@),
            blank_line(s@) == Some(i as nat),
            read_headers(hs, j as nat) == Some(
                (from@, to@, subject@, date, match boundary {
                    Some(b) => Some(b@),
                    None => None,
                }),
            ),
        decreases hl.len() - j,
    {
        proof {
            assert(hs[j as int] == hl@[j as int]@);
        }
        if !header_step_exec(&mut from, &mut to, &mut subject, &mut date, &mut boundary, &hl[j]) {
            proof {
                lemma_headers_stay_none(hs, (j + 1) as nat, hs.len());
            }
            return None;
        }
        j += 1;
    }
    let dated = match date {
        Some(t) => t,
        None => now,
    };
    match boundary {
        Some(b) => {
            let mut delim = str_chars("--");
            let mut m: usize = 0;
            proof {
                reveal_strlit("--");
            }
            while m < b.len()
                invariant
                    m <= b.len(),
                    delim@ == "--"@ + b@.take(m as int),
                decreases b.len() - m,
            {
                delim.push(b[m]);
                proof {
                    assert(b@.take(m + 1) =~= b@.take(m as int).push(b@[m as int]));
                    assert("--"@ + b@.take(m + 1) =~= ("--"@ + b@.take(m as int)).push(b@[m as int]));
                }
                m += 1;
            }
            proof {
                assert(b@.take(b.len() as int) =~= b@);
                assert(delim@.len() >= 2);
            }
            let parts = chars_split(&body_part, &delim);
            match read_parts_exec(&parts) {
                None => None,
                Some((body, atts)) => Some(Some(email_of(from, to, subject, dated, body, atts))),
            }
        },
        None => {
            let body = chars_trim(&body_part);
            let e = email_of(from, to, subject, dated, body, Vec::new());
            proof {
                assert(attachment_views(Seq::<(String, String, Vec<u8>)>::empty()) =~= Seq::<AttachmentView>::empty());
            }
            Some(Some(e))
        },
    }
}

/// Parses a raw email dated `now` where it has no readable `Date` header;
/// `None` for an email without a blank line after its headers.
pub fn parse_raw_email_at(raw: &[u8], now: Timestamp) -> (r: Option<ParsedEmail>)
    requires
        email_parse_ok(raw@),
    ensures
        parse_outcome(raw@, r, now),
{
    checked_parse_raw_email_at(raw, now).unwrap()
}

/// Natively parses a raw multipart email: the `From`, `To`, `Subject` and
/// `Date` headers (the time of parsing where no date can be read), the plain
/// text body, and the attachments.
pub fn parse_raw_email(raw: &[u8]) -> (r: Option<ParsedEmail>)
    requires
        email_parse_ok(raw@),
    ensures
        exists|now: Timestamp| #[trigger] parse_outcome(raw@, r, now),
{
    let now = utc_now();
    parse_raw_email_at(raw, now)
}

} // verus!
