use vstd::prelude::*;
use vstd::std_specs::iter::IteratorSpec;

verus! {

broadcast use vstd::string::axiom_spec_iter;

/// `needle` occurs in `hay` as a run of consecutive characters.
pub open spec fn occurs_in(needle: Seq<char>, hay: Seq<char>) -> bool {
    exists|i: int|
        0 <= i && i + needle.len() <= hay.len() && #[trigger] hay.subrange(i, i + needle.len())
            == needle
}

/// A line without the carriage return of a `\r\n` ending.
pub open spec fn strip_cr(line: Seq<char>) -> Seq<char> {
    if line.len() > 0 && line.last() == '\r' {
        line.drop_last()
    } else {
        line
    }
}

/// The lines of `s`, given that `cur` has been read of the line in progress.
pub open spec fn lines_from(s: Seq<char>, cur: Seq<char>) -> Seq<Seq<char>>
    decreases s.len(),
{
    if s.len() == 0 {
        if cur.len() == 0 {
            Seq::empty()
        } else {
            seq![cur]
        }
    } else if s[0] == '\n' {
        seq![strip_cr(cur)] + lines_from(s.drop_first(), Seq::empty())
    } else {
        lines_from(s.drop_first(), cur.push(s[0]))
    }
}

/// The lines of a text: split at each `\n`, a `\r` before it dropped, and no
/// empty line after a final `\n`.
pub open spec fn lines(s: Seq<char>) -> Seq<Seq<char>> {
    lines_from(s, Seq::empty())
}

/// The texts held by a sequence of strings.
pub open spec fn views(v: Seq<String>) -> Seq<Seq<char>> {
    v.map_values(|s: String| s@)
}

/// The texts held by a sequence of character vectors.
pub open spec fn char_views(v: Seq<Vec<char>>) -> Seq<Seq<char>> {
    v.map_values(|s: Vec<char>| s@)
}

/// What `str::to_lowercase` makes of a text.
pub uninterp spec fn lower_of(s: Seq<char>) -> Seq<char>;

/// Relies on str::to_lowercase: the lowercase form of the text, which depends
/// on its characters alone; an empty text stays empty.
#[verifier::external_body]
fn lowercase(s: &str) -> (r: String)
    ensures
        r@ == lower_of(s@),
        s@.len() == 0 ==> r@.len() == 0,
{
    s.to_lowercase()
}

/// Relies on String::push: the character is appended at the end.
#[verifier::external_body]
fn push_char(s: &mut String, c: char)
    ensures
        final(s)@ == old(s)@.push(c),
{
    s.push(c)
}

fn to_chars(s: &str) -> (r: Vec<char>)
    ensures
        r@ == s@,
{
    let mut it = s.chars();
    let mut out: Vec<char> = Vec::new();
    loop
        invariant
            it.obeys_prophetic_iter_laws(),
            out@ + it.remaining() == s@,
            it.decrease() is Some,
        decreases it.decrease()->0,
    {
        match it.next() {
            Some(c) => {
                proof {
                    assert(out@.push(c) + it.remaining() =~= s@);
                }
                out.push(c);
            },
            None => {
                proof {
                    assert(out@ =~= s@);
                }
                return out;
            },
        }
    }
}

fn to_string(chars: &Vec<char>) -> (r: String)
    ensures
        r@ == chars@,
{
    let mut out = String::new();
    let mut i: usize = 0;
    while i < chars.len()
        invariant
            i <= chars.len(),
            out@ == chars@.subrange(0, i as int),
        decreases chars.len() - i,
    {
        push_char(&mut out, chars[i]);
        proof {
            assert(out@ =~= chars@.subrange(0, i + 1));
        }
        i = i + 1;
    }
    proof {
        assert(chars@.subrange(0, i as int) =~= chars@);
    }
    out
}

fn split_lines(text: &Vec<char>) -> (r: Vec<Vec<char>>)
    ensures
        char_views(r@) == lines(text@),
{
    let mut out: Vec<Vec<char>> = Vec::new();
    let mut cur: Vec<char> = Vec::new();
    let mut i: usize = 0;
    let n = text.len();
    proof {
        assert(text@.subrange(0, n as int) =~= text@);
        assert(char_views(out@) + lines_from(text@, cur@) =~= lines(text@));
    }
    while i < n
        invariant
            i <= n,
            n == text.len(),
            char_views(out@) + lines_from(text@.subrange(i as int, n as int), cur@) == lines(
                text@,
            ),
        decreases n - i,
    {
        let ghost rest = text@.subrange(i as int, n as int);
        assert(rest.drop_first() =~= text@.subrange(i + 1, n as int));
        let c = text[i];
        if c == '\n' {
            if cur.len() > 0 && cur[cur.len() - 1] == '\r' {
                cur.pop();
            }
            let line = cur;
            proof {
                assert(char_views(out@.push(line)) =~= char_views(out@) + seq![line@]);
            }
            out.push(line);
            cur = Vec::new();
        } else {
            cur.push(c);
        }
        i = i + 1;
    }
    proof {
        assert(text@.subrange(n as int, n as int) =~= Seq::<char>::empty());
    }
    if cur.len() > 0 {
        let line = cur;
        proof {
            assert(char_views(out@.push(line)) =~= char_views(out@) + seq![line@]);
        }
        out.push(line);
    } else {
        proof {
            assert(char_views(out@) + Seq::<Seq<char>>::empty() =~= char_views(out@));
        }
    }
    out
}

fn occurs_at(hay: &Vec<char>, needle: &Vec<char>, start: usize) -> (r: bool)
    requires
        start + needle.len() <= hay.len(),
    ensures
        r == (hay@.subrange(start as int, start + needle.len()) == needle@),
{
    let mut k: usize = 0;
    while k < needle.len()
        invariant
            k <= needle.len(),
            start + needle.len() <= hay.len(),
            hay@.subrange(start as int, start + k) == needle@.subrange(0, k as int),
        decreases needle.len() - k,
    {
        if hay[start + k] != needle[k] {
            proof {
                assert(hay@.subrange(start as int, start + needle.len())[k as int] != needle@[k as int]);
            }
            return false;
        }
        proof {
            assert(hay@.subrange(start as int, start + k + 1) =~= needle@.subrange(0, k + 1));
        }
        k = k + 1;
    }
    proof {
        assert(needle@.subrange(0, k as int) =~= needle@);
    }
    true
}

fn occurs(hay: &Vec<char>, needle: &Vec<char>) -> (r: bool)
    ensures
        r == occurs_in(needle@, hay@),
{
    if needle.len() > hay.len() {
        return false;
    }
    let last = hay.len() - needle.len();
    let mut start: usize = 0;
    while start <= last
        invariant
            start <= last,
            last + needle.len() == hay.len(),
            forall|j: int|
                0 <= j < start ==> #[trigger] hay@.subrange(j, j + needle.len()) != needle@,
        decreases last + 1 - start,
    {
        if occurs_at(hay, needle, start) {
            return true;
        }
        if start == last {
            return false;
        }
        start = start + 1;
    }
    false
}

/// Whether `needle` occurs in `haystack`.
pub fn contains_str(haystack: &str, needle: &str) -> (r: bool)
    ensures
        r == occurs_in(needle@, haystack@),
{
    occurs(&to_chars(haystack), &to_chars(needle))
}

/// The lines of `contents` that contain `query`, in order.
pub fn search(query: &str, contents: &str) -> (r: Vec<String>)
    ensures
        views(r@) == lines(contents@).filter(|l: Seq<char>| occurs_in(query@, l)),
{
    let q = to_chars(query);
    let ls = split_lines(&to_chars(contents));
    let ghost all = char_views(ls@);
    let ghost pred = |l: Seq<char>| occurs_in(query@, l);
    let mut out: Vec<String> = Vec::new();
    let mut i: usize = 0;
    while i < ls.len()
        invariant
            i <= ls.len(),
            all == char_views(ls@),
            q@ == query@,
            pred == (|l: Seq<char>| occurs_in(query@, l)),
            views(out@) == all.subrange(0, i as int).filter(pred),
        decreases ls.len() - i,
    {
        let ghost before = out@;
        proof {
            reveal(Seq::filter);
            assert(all.subrange(0, i + 1).drop_last() =~= all.subrange(0, i as int));
            assert(all.subrange(0, i + 1).last() == ls@[i as int]@);
        }
        if occurs(&ls[i], &q) {
            let line = to_string(&ls[i]);
            out.push(line);
            proof {
                assert(views(out@) =~= views(before).push(line@));
            }
        }
        i = i + 1;
    }
    proof {
        assert(all.subrange(0, i as int) =~= all);
    }
    out
}

/// The lines of `contents` that contain `query`, letter case aside: a line is
/// kept when its lowercase form contains the lowercase form of `query`.
pub fn case_insensitive_search(query: &str, contents: &str) -> (r: Vec<String>)
    ensures
        views(r@) == lines(contents@).filter(
            |l: Seq<char>| occurs_in(lower_of(query@), lower_of(l)),
        ),
{
    let folded = lowercase(query);
    let q = to_chars(folded.as_str());
    let ls = split_lines(&to_chars(contents));
    let ghost all = char_views(ls@);
    let ghost pred = |l: Seq<char>| occurs_in(lower_of(query@), lower_of(l));
    let mut out: Vec<String> = Vec::new();
    let mut i: usize = 0;
    while i < ls.len()
        invariant
            i <= ls.len(),
            all == char_views(ls@),
            q@ == lower_of(query@),
            pred == (|l: Seq<char>| occurs_in(lower_of(query@), lower_of(l))),
            views(out@) == all.subrange(0, i as int).filter(pred),
        decreases ls.len() - i,
    {
        let ghost before = out@;
        proof {
            reveal(Seq::filter);
            assert(all.subrange(0, i + 1).drop_last() =~= all.subrange(0, i as int));
            assert(all.subrange(0, i + 1).last() == ls@[i as int]@);
        }
        let line = to_string(&ls[i]);
        let line_folded = to_chars(lowercase(line.as_str()).as_str());
        if occurs(&line_folded, &q) {
            out.push(line);
            proof {
                assert(views(out@) =~= views(before).push(ls@[i as int]@));
            }
        }
        i = i + 1;
    }
    proof {
        assert(all.subrange(0, i as int) =~= all);
    }
    out
}

/// What the search is asked to do: the text to look for, the file to look
/// in, and whether letter case counts.
pub struct Config {
    pub case_sensitive: bool,
    pub query: String,
    pub filename: String,
}

impl Config {
    /// Reads the query and the file name from the command line (after the
    /// program's own name); the search ignores letter case when
    /// `case_insensitive` is set.
    pub fn new(args: &Vec<String>, case_insensitive: bool) -> (r: Result<Config, &'static str>)
        ensures
            r is Err <==> args.len() < 3,
            r matches Err(e) ==> e@ == "Didn't get a query string"@,
            r matches Ok(c) ==> {
                &&& c.query@ == args@[1]@
                &&& c.filename@ == args@[2]@
                &&& c.case_sensitive == !case_insensitive
            },
    {
        if args.len() < 3 {
            proof {
                reveal_strlit("Didn't get a query string");
            }
            return Err("Didn't get a query string");
        }
        let query = args[1].clone();
        let filename = args[2].clone();
        Ok(Config { case_sensitive: !case_insensitive, query, filename })
    }
}

/// The lines of `contents` that the configured search selects.
pub fn matching_lines(config: &Config, contents: &str) -> (r: Vec<String>)
    ensures
        config.case_sensitive ==> views(r@) == lines(contents@).filter(
            |l: Seq<char>| occurs_in(config.query@, l),
        ),
        !config.case_sensitive ==> views(r@) == lines(contents@).filter(
            |l: Seq<char>| occurs_in(lower_of(config.query@), lower_of(l)),
        ),
{
    if config.case_sensitive {
        search(config.query.as_str(), contents)
    } else {
        case_insensitive_search(config.query.as_str(), contents)
    }
}

} // verus!
