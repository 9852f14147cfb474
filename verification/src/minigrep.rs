use vstd::prelude::*;

verus! {

/// Configuration of the console search tool.
pub struct Config {
    pub query: String,
    pub filename: String,
    pub case_sensitive: bool,
}

impl Config {
    /// Builds the configuration from the command-line arguments (program
    /// name first) and the case-sensitivity switch taken from the
    /// environment by the caller.
    pub fn new(args: Vec<String>, case_sensitive: bool) -> (r: Result<Config, &'static str>)
        ensures
            args@.len() < 3 ==> (r matches Err(m) && m@ == "not enough arguments"@),
            args@.len() >= 3 ==> (r matches Ok(c) && c.query@ == args@[1]@ && c.filename@
                == args@[2]@ && c.case_sensitive == case_sensitive),
    {
        if args.len() < 3 {
            return Err("not enough arguments");
        }
        let query = args[1].clone();
        let filename = args[2].clone();
        Ok(Config { query, filename, case_sensitive })
    }
}

/// The position of the first newline in `s`, or `s.len()` if there is none.
pub open spec fn first_nl(s: Seq<char>) -> int
    decreases s.len(),
{
    if s.len() == 0 {
        0
    } else if s[0] == '\n' {
        0
    } else {
        1 + first_nl(s.drop_first())
    }
}

/// A line terminated by "\r\n" loses the carriage return.
pub open spec fn chomp_cr(line: Seq<char>) -> Seq<char> {
    if line.len() > 0 && line.last() == '\r' {
        line.drop_last()
    } else {
        line
    }
}

/// The lines of `content`, split at newlines: each terminated line loses
/// its terminator ("\n" or "\r\n"), and a final line ending is optional.
pub open spec fn spec_lines(content: Seq<char>) -> Seq<Seq<char>>
    decreases content.len(),
{
    if content.len() == 0 {
        Seq::empty()
    } else {
        let i = first_nl(content);
        if 0 <= i < content.len() {
            seq![chomp_cr(content.subrange(0, i))] + spec_lines(
                content.subrange(i + 1, content.len() as int),
            )
        } else {
            seq![content]
        }
    }
}

proof fn lemma_first_nl_is(s: Seq<char>, k: int)
    requires
        0 <= k <= s.len(),
        forall|j: int| 0 <= j < k ==> s[j] != '\n',
        k == s.len() || s[k] == '\n',
    ensures
        first_nl(s) == k,
    decreases k,
{
    if k == 0 {
    } else {
        assert(s[0] != '\n');
        lemma_first_nl_is(s.drop_first(), k - 1);
    }
}

/// `needle` occurs in `hay` starting at position `i`.
pub open spec fn contains_at(hay: Seq<char>, needle: Seq<char>, i: int) -> bool {
    0 <= i && i + needle.len() <= hay.len() && hay.subrange(i, i + needle.len()) == needle
}

/// `needle` occurs somewhere in `hay`.
pub open spec fn contains_seq(hay: Seq<char>, needle: Seq<char>) -> bool {
    exists|i: int| contains_at(hay, needle, i)
}

/// The lines among `ls` that contain `q`, in order.
pub open spec fn matching_lines(ls: Seq<Seq<char>>, q: Seq<char>) -> Seq<Seq<char>>
    decreases ls.len(),
{
    if ls.len() == 0 {
        Seq::empty()
    } else {
        let prefix = matching_lines(ls.drop_last(), q);
        if contains_seq(ls.last(), q) {
            prefix.push(ls.last())
        } else {
            prefix
        }
    }
}

/// What `str::to_lowercase` returns; the result depends on the characters
/// alone.
pub uninterp spec fn lower_of(s: Seq<char>) -> Seq<char>;

/// Relies on str::to_lowercase: Unicode lowercasing, a function of the
/// input characters alone, named `lower_of` here.
#[verifier::external_body]
fn lowercase(s: &str) -> (r: String)
    ensures
        r@ == lower_of(s@),
{
    s.to_lowercase()
}

/// The lines among `ls` whose lowercase form contains the lowercase form
/// of `q`, in order.
pub open spec fn matching_lines_ci(ls: Seq<Seq<char>>, q: Seq<char>) -> Seq<Seq<char>>
    decreases ls.len(),
{
    if ls.len() == 0 {
        Seq::empty()
    } else {
        let prefix = matching_lines_ci(ls.drop_last(), q);
        if contains_seq(lower_of(ls.last()), lower_of(q)) {
            prefix.push(ls.last())
        } else {
            prefix
        }
    }
}

/// Splits `content` into its lines.
fn split_lines<'a>(content: &'a str) -> (r: Vec<&'a str>)
    ensures
        r.deep_view() == spec_lines(content@),
{
    let n = content.unicode_len();
    let mut result: Vec<&'a str> = Vec::new();
    let mut start: usize = 0;
    let mut i: usize = 0;
    proof {
        assert(content@.subrange(0, n as int) =~= content@);
        assert(result.deep_view() + spec_lines(content@) =~= spec_lines(content@));
    }
    while i < n
        invariant
            0 <= start <= i <= n,
            n == content@.len(),
            forall|j: int| start <= j < i ==> content@[j] != '\n',
            spec_lines(content@) == result.deep_view() + spec_lines(
                content@.subrange(start as int, n as int),
            ),
        decreases n - i,
    {
        if content.get_char(i) == '\n' {
            let line = if i > start && content.get_char(i - 1) == '\r' {
                content.substring_char(start, i - 1)
            } else {
                content.substring_char(start, i)
            };
            proof {
                let suffix = content@.subrange(start as int, n as int);
                lemma_first_nl_is(suffix, i - start);
                assert(suffix.subrange(0, i - start) =~= content@.subrange(start as int, i as int));
                assert(suffix.subrange(i - start + 1, suffix.len() as int) =~= content@.subrange(
                    i as int + 1,
                    n as int,
                ));
                if i > start && content@[i as int - 1] == '\r' {
                    assert(line@ =~= chomp_cr(content@.subrange(start as int, i as int)));
                } else {
                    assert(line@ =~= chomp_cr(content@.subrange(start as int, i as int)));
                }
                assert(spec_lines(suffix) == seq![chomp_cr(suffix.subrange(0, i - start))]
                    + spec_lines(suffix.subrange(i - start + 1, suffix.len() as int)));
            }
            let ghost dv = result.deep_view();
            result.push(line);
            proof {
                assert(result.deep_view() =~= dv.push(line@));
                assert(dv.push(line@) =~= dv + seq![line@]);
            }
            start = i + 1;
        }
        i = i + 1;
    }
    if start < n {
        let line = content.substring_char(start, n);
        proof {
            let suffix = content@.subrange(start as int, n as int);
            lemma_first_nl_is(suffix, suffix.len() as int);
            assert(spec_lines(suffix) == seq![suffix]);
        }
        let ghost dv = result.deep_view();
        result.push(line);
        proof {
            assert(result.deep_view() =~= dv.push(line@));
            assert(dv.push(line@) =~= dv + seq![line@]);
        }
    } else {
        proof {
            assert(content@.subrange(start as int, n as int).len() == 0);
            assert(spec_lines(content@.subrange(start as int, n as int)) == Seq::<Seq<char>>::empty());
            assert(result.deep_view() + Seq::<Seq<char>>::empty() =~= result.deep_view());
        }
    }
    result
}

/// Whether `needle` occurs in `hay` starting at `i`.
fn match_at(hay: &str, needle: &str, i: usize) -> (r: bool)
    requires
        i + needle@.len() <= hay@.len(),
    ensures
        r == contains_at(hay@, needle@, i as int),
{
    let hn = hay.unicode_len();
    let nn = needle.unicode_len();
    let mut j: usize = 0;
    while j < nn
        invariant
            hn == hay@.len(),
            nn == needle@.len(),
            i + nn <= hn,
            0 <= j <= nn,
            forall|t: int| 0 <= t < j ==> hay@[i + t] == needle@[t],
        decreases nn - j,
    {
        if hay.get_char(i + j) != needle.get_char(j) {
            proof {
                assert(hay@.subrange(i as int, i as int + needle@.len() as int)[j as int]
                    == hay@[i + j]);
            }
            return false;
        }
        j = j + 1;
    }
    proof {
        assert(hay@.subrange(i as int, i as int + needle@.len() as int) =~= needle@);
    }
    true
}

/// Whether `needle` occurs anywhere in `hay`.
fn str_contains(hay: &str, needle: &str) -> (r: bool)
    ensures
        r == contains_seq(hay@, needle@),
{
    let hn = hay.unicode_len();
    let nn = needle.unicode_len();
    if nn > hn {
        proof {
            assert forall|k: int| !contains_at(hay@, needle@, k) by {}
        }
        return false;
    }
    if nn == 0 {
        proof {
            assert(hay@.subrange(0, 0) =~= needle@);
            assert(contains_at(hay@, needle@, 0));
        }
        return true;
    }
    let mut i: usize = 0;
    while i <= hn - nn
        invariant
            1 <= nn <= hn,
            hn == hay@.len(),
            nn == needle@.len(),
            0 <= i <= hn - nn + 1,
            forall|k: int| 0 <= k < i ==> !contains_at(hay@, needle@, k),
        decreases hn - nn + 1 - i,
    {
        if match_at(hay, needle, i) {
            return true;
        }
        i = i + 1;
    }
    proof {
        assert forall|k: int| !contains_at(hay@, needle@, k) by {
            if 0 <= k < i {
            }
        }
    }
    false
}

/// The lines of `content` that contain `query`, in order.
pub fn search<'a>(query: &str, content: &'a str) -> (r: Vec<&'a str>)
    ensures
        r.deep_view() == matching_lines(spec_lines(content@), query@),
{
    let lines = split_lines(content);
    let mut result: Vec<&'a str> = Vec::new();
    let mut i: usize = 0;
    while i < lines.len()
        invariant
            0 <= i <= lines@.len(),
            lines.deep_view() == spec_lines(content@),
            result.deep_view() == matching_lines(lines.deep_view().take(i as int), query@),
        decreases lines@.len() - i,
    {
        let line = lines[i];
        let ghost lv = lines.deep_view();
        let ghost dv = result.deep_view();
        proof {
            assert(lv.take(i as int + 1).drop_last() =~= lv.take(i as int));
            assert(lv.take(i as int + 1).last() == lv[i as int]);
            assert(lv[i as int] == line@);
        }
        if str_contains(line, query) {
            result.push(line);
            proof {
                assert(result.deep_view() =~= dv.push(line@));
            }
        }
        i = i + 1;
    }
    proof {
        assert(lines.deep_view().take(lines@.len() as int) =~= lines.deep_view());
    }
    result
}

/// The lines of `content` that contain `query` ignoring case, in order:
/// a line matches when its lowercase form contains the lowercase query.
pub fn search_case_insensitive<'a>(query: &str, content: &'a str) -> (r: Vec<&'a str>)
    ensures
        r.deep_view() == matching_lines_ci(spec_lines(content@), query@),
{
    let query_lower = lowercase(query);
    let lines = split_lines(content);
    let mut result: Vec<&'a str> = Vec::new();
    let mut i: usize = 0;
    while i < lines.len()
        invariant
            0 <= i <= lines@.len(),
            lines.deep_view() == spec_lines(content@),
            query_lower@ == lower_of(query@),
            result.deep_view() == matching_lines_ci(lines.deep_view().take(i as int), query@),
        decreases lines@.len() - i,
    {
        let line = lines[i];
        let ghost lv = lines.deep_view();
        let ghost dv = result.deep_view();
        proof {
            assert(lv.take(i as int + 1).drop_last() =~= lv.take(i as int));
            assert(lv.take(i as int + 1).last() == lv[i as int]);
            assert(lv[i as int] == line@);
        }
        let line_lower = lowercase(line);
        if str_contains(line_lower.as_str(), query_lower.as_str()) {
            result.push(line);
            proof {
                assert(result.deep_view() =~= dv.push(line@));
            }
        }
        i = i + 1;
    }
    proof {
        assert(lines.deep_view().take(lines@.len() as int) =~= lines.deep_view());
    }
    result
}

} // verus!
