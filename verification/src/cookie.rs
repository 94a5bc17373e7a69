//! Node credentials: the `user:password` cookie file and where to look for it.

use vstd::prelude::*;

verus! {

/// Whether `c` has the Unicode `White_Space` property (PropList.txt), the
/// test that `char::is_whitespace` and `str::trim` apply: U+0009 to U+000D,
/// U+0020, U+0085, U+00A0, U+1680, U+2000 to U+200A, U+2028, U+2029, U+202F,
/// U+205F and U+3000.
pub open spec fn white_space(c: char) -> bool {
    let v = c as u32;
    ||| 0x09 <= v <= 0x0d
    ||| v == 0x20
    ||| v == 0x85
    ||| v == 0xa0
    ||| v == 0x1680
    ||| 0x2000 <= v <= 0x200a
    ||| v == 0x2028
    ||| v == 0x2029
    ||| v == 0x202f
    ||| v == 0x205f
    ||| v == 0x3000
}

/// Whether `c` is white space, as `char::is_whitespace` answers.
pub fn is_white_space(c: char) -> (b: bool)
    ensures
        b == white_space(c),
{
    let v = c as u32;
    (0x09 <= v && v <= 0x0d) || v == 0x20 || v == 0x85 || v == 0xa0 || v == 0x1680 || (0x2000 <= v
        && v <= 0x200a) || v == 0x2028 || v == 0x2029 || v == 0x202f || v == 0x205f || v == 0x3000
}

/// `s` without its leading white space.
pub open spec fn trim_start(s: Seq<char>) -> Seq<char>
    decreases s.len(),
{
    if s.len() > 0 && white_space(s[0]) {
        trim_start(s.drop_first())
    } else {
        s
    }
}

/// `s` without its trailing white space.
pub open spec fn trim_end(s: Seq<char>) -> Seq<char>
    decreases s.len(),
{
    if s.len() > 0 && white_space(s.last()) {
        trim_end(s.drop_last())
    } else {
        s
    }
}

pub open spec fn trim(s: Seq<char>) -> Seq<char> {
    trim_end(trim_start(s))
}

/// `i` is the first position of `sep` in `s`.
pub open spec fn first_at(s: Seq<char>, sep: char, i: int) -> bool {
    &&& 0 <= i < s.len()
    &&& s[i] == sep
    &&& forall|j: int| 0 <= j < i ==> s[j] != sep
}

/// `s` split around the first `sep`, if there is one.
pub open spec fn split_once(s: Seq<char>, sep: char) -> Option<(Seq<char>, Seq<char>)> {
    if exists|i: int| 0 <= i < s.len() && s[i] == sep {
        let i = choose|i: int| first_at(s, sep, i);
        Some((s.subrange(0, i), s.subrange(i + 1, s.len() as int)))
    } else {
        None
    }
}

/// The user and password that a cookie file's content holds: the trimmed
/// content split at its first `:`.
pub open spec fn cookie_credentials(content: Seq<char>) -> Option<(Seq<char>, Seq<char>)> {
    split_once(trim(content), ':')
}

/// Reads the user and password from the content of a cookie file; `None`
/// when the trimmed content holds no `:`.
pub fn parse_cookie(content: &str) -> (auth: Option<(String, String)>)
    ensures
        match auth {
            Some((user, pass)) => cookie_credentials(content@) == Some((user@, pass@)),
            None => cookie_credentials(content@) is None,
        },
{
    let ghost s = content@;
    let n = content.unicode_len();
    let mut lo: usize = 0;
    assert(s.subrange(0, n as int) =~= s);
    while lo < n && is_white_space(content.get_char(lo))
        invariant
            s == content@,
            n == s.len(),
            lo <= n,
            trim_start(s) == trim_start(s.subrange(lo as int, n as int)),
        decreases n - lo,
    {
        assert(s.subrange(lo as int, n as int).drop_first() =~= s.subrange(lo + 1, n as int));
        lo = lo + 1;
    }
    assert(trim_start(s) == s.subrange(lo as int, n as int));
    let mut hi: usize = n;
    while hi > lo && is_white_space(content.get_char(hi - 1))
        invariant
            s == content@,
            n == s.len(),
            lo <= hi <= n,
            trim(s) == trim_end(s.subrange(lo as int, hi as int)),
        decreases hi - lo,
    {
        assert(s.subrange(lo as int, hi as int).drop_last() =~= s.subrange(lo as int, hi - 1));
        hi = hi - 1;
    }
    let ghost t = s.subrange(lo as int, hi as int);
    assert(trim(s) == t);
    let mut i: usize = lo;
    while i < hi && content.get_char(i) != ':'
        invariant
            s == content@,
            n == s.len(),
            lo <= i <= hi <= n,
            t == s.subrange(lo as int, hi as int),
            forall|j: int| 0 <= j < i - lo ==> t[j] != ':',
        decreases hi - i,
    {
        i = i + 1;
    }
    if i == hi {
        assert(!(exists|k: int| 0 <= k < t.len() && t[k] == ':'));
        None
    } else {
        let ghost k = (i - lo) as int;
        assert(first_at(t, ':', k));
        let ghost c = choose|c: int| first_at(t, ':', c);
        assert(c == k) by {
            if c < k {
                assert(t[c] != ':');
            } else if k < c {
                assert(t[k] != ':');
            }
        }
        let user = String::from_str(content.substring_char(lo, i));
        let pass = String::from_str(content.substring_char(i + 1, hi));
        assert(user@ =~= t.subrange(0, k));
        assert(pass@ =~= t.subrange(k + 1, t.len() as int));
        Some((user, pass))
    }
}

/// The cookie files to try, in order, for the home directory `home` (taken
/// as `/root` when unknown).
pub open spec fn cookie_paths(home: Option<Seq<char>>) -> Seq<Seq<char>> {
    let h = match home {
        Some(h) => h,
        None => "/root"@,
    };
    seq![
        h + "/.cache/zebra/.cookie"@,
        h + "/.zcash/.cookie"@,
        "/home/zebra/.cache/zebra/.cookie"@,
    ]
}

/// The cookie files to try, in order: Zebra's and zcashd's under the home
/// directory, then Zebra's under `/home/zebra`.
pub fn cookie_candidates(home: Option<&str>) -> (paths: Vec<String>)
    ensures
        paths@.map_values(|p: String| p@) == cookie_paths(
            match home {
                Some(h) => Some(h@),
                None => None,
            },
        ),
{
    let h = match home {
        Some(h) => h,
        None => "/root",
    };
    let mut paths: Vec<String> = Vec::new();
    paths.push(String::from_str(h).concat("/.cache/zebra/.cookie"));
    paths.push(String::from_str(h).concat("/.zcash/.cookie"));
    paths.push(String::from_str("/home/zebra/.cache/zebra/.cookie"));
    assert(paths@.map_values(|p: String| p@) =~= cookie_paths(
        match home {
            Some(h) => Some(h@),
            None => None,
        },
    ));
    paths
}

proof fn lemma_trim_start_shortens(s: Seq<char>)
    ensures
        trim_start(s).len() <= s.len(),
        s.len() > 0 && white_space(s[0]) ==> trim_start(s).len() < s.len(),
    decreases s.len(),
{
    if s.len() > 0 && white_space(s[0]) {
        lemma_trim_start_shortens(s.drop_first());
    }
}

proof fn lemma_trim_end_shortens(s: Seq<char>)
    ensures
        trim_end(s).len() <= s.len(),
        s.len() > 0 && white_space(s.last()) ==> trim_end(s).len() < s.len(),
    decreases s.len(),
{
    if s.len() > 0 && white_space(s.last()) {
        lemma_trim_end_shortens(s.drop_last());
    }
}

/// Writing a user without `:` and without leading white space, then `:`,
/// then a password without trailing white space, then a newline, gives a
/// cookie that reads back as that user and password.
pub proof fn lemma_cookie_round_trip(user: Seq<char>, pass: Seq<char>)
    requires
        !user.contains(':'),
        trim_start(user) == user,
        trim_end(pass) == pass,
    ensures
        cookie_credentials(user + seq![':'] + pass + seq!['\n']) == Some((user, pass)),
{
    let m = user + seq![':'] + pass;
    let s = m + seq!['\n'];
    lemma_trim_start_shortens(user);
    lemma_trim_end_shortens(pass);
    assert(!white_space(s[0])) by {
        if user.len() > 0 {
            assert(s[0] == user[0]);
        } else {
            assert(s[0] == ':');
        }
    }
    assert(trim_start(s) == s);
    assert(s.drop_last() =~= m);
    assert(white_space(s.last()));
    assert(trim_end(s) == trim_end(m));
    assert(!white_space(m.last())) by {
        if pass.len() > 0 {
            assert(m.last() == pass.last());
        } else {
            assert(m.last() == ':');
        }
    }
    assert(trim(s) == m);
    let k = user.len() as int;
    assert forall|j: int| 0 <= j < k implies m[j] != ':' by {
        assert(m[j] == user[j]);
        if user[j] == ':' {
            assert(user.contains(':'));
        }
    }
    assert(m[k] == ':');
    assert(first_at(m, ':', k));
    let c = choose|c: int| first_at(m, ':', c);
    assert(c == k) by {
        if c < k {
            assert(m[c] != ':');
        } else if k < c {
            assert(m[k] != ':');
        }
    }
    assert(m.subrange(0, k) =~= user);
    assert(m.subrange(k + 1, m.len() as int) =~= pass);
}

/// `i` is the first candidate whose content was read and holds credentials.
pub open spec fn first_cookie_at(contents: Seq<Option<Seq<char>>>, i: int) -> bool {
    &&& 0 <= i < contents.len()
    &&& contents[i] matches Some(c) && cookie_credentials(c) is Some
    &&& forall|j: int| 0 <= j < i ==> !(#[trigger] contents[j] matches Some(c) && cookie_credentials(c) is Some)
}

/// Picks the credentials of the first candidate cookie file that was read
/// (`Some` content) and holds a `:`, with its position.
pub fn first_cookie(contents: &Vec<Option<String>>) -> (found: Option<(usize, String, String)>)
    ensures
        match found {
            Some((i, user, pass)) => {
                &&& first_cookie_at(contents@.map_values(|c: Option<String>| match c {
                    Some(s) => Some(s@),
                    None => None,
                }), i as int)
                &&& contents@[i as int] matches Some(c) && cookie_credentials(c@) == Some((user@, pass@))
                &&& forall|j: int|
                    0 <= j < i ==> !(#[trigger] contents@[j] matches Some(c) && cookie_credentials(c@) is Some)
            },
            None => forall|j: int|
                0 <= j < contents@.len() ==> !(#[trigger] contents@[j] matches Some(c) && cookie_credentials(c@) is Some),
        },
{
    let ghost views = contents@.map_values(|c: Option<String>| match c {
        Some(s) => Some(s@),
        None => None,
    });
    let mut i: usize = 0;
    while i < contents.len()
        invariant
            i <= contents@.len(),
            views == contents@.map_values(|c: Option<String>| match c {
                Some(s) => Some(s@),
                None => None,
            }),
            forall|j: int| 0 <= j < i ==> !(#[trigger] contents@[j] matches Some(c) && cookie_credentials(c@) is Some),
        decreases contents@.len() - i,
    {
        if let Some(content) = &contents[i] {
            if let Some((user, pass)) = parse_cookie(content.as_str()) {
                assert forall|j: int| 0 <= j < i implies !(#[trigger] views[j] matches Some(c) && cookie_credentials(c) is Some) by {
                    assert(!(contents@[j] matches Some(c) && cookie_credentials(c@) is Some));
                }
                return Some((i, user, pass));
            }
        }
        i = i + 1;
    }
    None
}

proof fn lemma_trim_start_skips(pre: Seq<char>, s: Seq<char>)
    requires
        forall|i: int| 0 <= i < pre.len() ==> white_space(#[trigger] pre[i]),
    ensures
        trim_start(pre + s) == trim_start(s),
    decreases pre.len(),
{
    if pre.len() > 0 {
        assert((pre + s).drop_first() =~= pre.drop_first() + s);
        assert((pre + s)[0] == pre[0]);
        assert forall|i: int| 0 <= i < pre.drop_first().len() implies white_space(#[trigger] pre.drop_first()[i]) by {
            assert(pre.drop_first()[i] == pre[i + 1]);
        }
        lemma_trim_start_skips(pre.drop_first(), s);
    } else {
        assert(pre + s =~= s);
    }
}

proof fn lemma_trim_end_skips(s: Seq<char>, post: Seq<char>)
    requires
        forall|i: int| 0 <= i < post.len() ==> white_space(#[trigger] post[i]),
    ensures
        trim_end(s + post) == trim_end(s),
    decreases post.len(),
{
    if post.len() > 0 {
        assert((s + post).drop_last() =~= s + post.drop_last());
        assert((s + post).last() == post.last());
        assert(white_space(post[post.len() - 1]));
        assert forall|i: int| 0 <= i < post.drop_last().len() implies white_space(#[trigger] post.drop_last()[i]) by {
            assert(post.drop_last()[i] == post[i]);
        }
        lemma_trim_end_skips(s, post.drop_last());
    } else {
        assert(s + post =~= s);
    }
}

proof fn lemma_trim_start_append(s: Seq<char>, post: Seq<char>)
    ensures
        trim_start(s).len() > 0 ==> trim_start(s + post) == trim_start(s) + post,
        trim_start(s).len() == 0 ==> trim_start(s + post) == trim_start(post),
    decreases s.len(),
{
    if s.len() == 0 {
        assert(s + post =~= post);
        assert(trim_start(s) =~= s);
        assert(s + post =~= trim_start(s) + post);
    } else {
        assert((s + post)[0] == s[0]);
        if white_space(s[0]) {
            assert((s + post).drop_first() =~= s.drop_first() + post);
            lemma_trim_start_append(s.drop_first(), post);
        }
    }
}

/// White space around a cookie does not change what it reads as.
pub proof fn lemma_cookie_ignores_surrounding_space(pre: Seq<char>, content: Seq<char>, post: Seq<char>)
    requires
        forall|i: int| 0 <= i < pre.len() ==> white_space(#[trigger] pre[i]),
        forall|i: int| 0 <= i < post.len() ==> white_space(#[trigger] post[i]),
    ensures
        cookie_credentials(pre + content + post) == cookie_credentials(content),
{
    assert(pre + content + post =~= pre + (content + post));
    lemma_trim_start_skips(pre, content + post);
    lemma_trim_start_append(content, post);
    if trim_start(content).len() > 0 {
        lemma_trim_end_skips(trim_start(content), post);
    } else {
        lemma_trim_start_skips(post, Seq::empty());
        assert(post + Seq::<char>::empty() =~= post);
        assert(trim_start(content) =~= Seq::<char>::empty());
    }
}

} // verus!
