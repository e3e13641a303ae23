use vstd::prelude::*;

verus! {

/// Whether a text is a semantic version, as semver reads one.
pub uninterp spec fn is_semver(s: Seq<char>) -> bool;

/// The whitespace-separated words of a text, in order.
pub uninterp spec fn whitespace_words(s: Seq<char>) -> Seq<Seq<char>>;

/// Relies on semver::Version::parse: it accepts exactly the semantic
/// versions.
#[verifier::external_body]
fn parses_as_version(s: &str) -> (r: bool)
    ensures
        r == is_semver(s@),
{
    semver::Version::parse(s).is_ok()
}

/// Relies on str::split_whitespace: the words between runs of whitespace.
#[verifier::external_body]
fn split_words(s: &str) -> (r: Vec<String>)
    ensures
        r@.map_values(|w: String| w@) == whitespace_words(s@),
{
    s.split_whitespace().map(String::from).collect()
}

/// The text with its leading `v` characters taken off.
pub open spec fn strip_v(w: Seq<char>) -> Seq<char>
    decreases w.len(),
{
    if w.len() > 0 && w[0] == 'v' {
        strip_v(w.drop_first())
    } else {
        w
    }
}

/// The first word that reads as a semantic version once its leading `v`s
/// are taken off, taken off.
pub open spec fn first_version(words: Seq<Seq<char>>) -> Option<Seq<char>>
    decreases words.len(),
{
    if words.len() == 0 {
        None
    } else if is_semver(strip_v(words[0])) {
        Some(strip_v(words[0]))
    } else {
        first_version(words.drop_first())
    }
}

/// Takes the leading `v` characters off a word.
fn trim_leading_v(w: &str) -> (r: String)
    ensures
        r@ == strip_v(w@),
{
    let n = w.unicode_len();
    let mut start: usize = 0;
    assert(w@.subrange(0, n as int) =~= w@);
    while start < n && w.get_char(start) == 'v'
        invariant
            start <= n,
            n == w@.len(),
            strip_v(w@) == strip_v(w@.subrange(start as int, n as int)),
        decreases n - start,
    {
        assert(w@.subrange(start as int, n as int).drop_first() =~= w@.subrange(start + 1, n as int));
        start = start + 1;
    }
    proof {
        let rest = w@.subrange(start as int, n as int);
        if start < n {
            assert(rest[0] == w@[start as int]);
        }
    }
    String::from_str(w.substring_char(start, n))
}

/// Finds the version in the output of the CLI's `--version`, such as
/// `agent 2.1.0` or `agent-cli v2.1.33`.
pub fn extract_version(output: &str) -> (r: Option<String>)
    ensures
        match r {
            Some(v) => first_version(whitespace_words(output@)) == Some(v@),
            None => first_version(whitespace_words(output@)) is None,
        },
{
    let words = split_words(output);
    let ghost all = whitespace_words(output@);
    let mut i: usize = 0;
    assert(all.subrange(0, all.len() as int) =~= all);
    while i < words.len()
        invariant
            i <= words@.len(),
            words@.map_values(|w: String| w@) == all,
            all == whitespace_words(output@),
            first_version(all) == first_version(all.subrange(i as int, all.len() as int)),
        decreases words@.len() - i,
    {
        let candidate = trim_leading_v(words[i].as_str());
        proof {
            assert(all[i as int] == words@[i as int]@);
            assert(all.subrange(i as int, all.len() as int).drop_first() =~= all.subrange(i + 1, all.len() as int));
        }
        if parses_as_version(candidate.as_str()) {
            proof {
                let sub = all.subrange(i as int, all.len() as int);
                assert(all.len() == words@.len());
                assert(sub[0] == all[i as int]);
                assert(candidate@ == strip_v(sub[0]));
                assert(first_version(sub) == Some(strip_v(sub[0])));
            }
            return Some(candidate);
        }
        i = i + 1;
    }
    None
}

} // verus!
