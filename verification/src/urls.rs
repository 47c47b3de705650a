//! Explorer URL construction.
//!
//! A program is fetched from `{base}/program/{id}`, a specific edition from
//! `{base}/program/{id}/{edition}`, and the latest edition number from
//! `{base}/program/{id}/latest_edition`. Path segments are appended to the
//! base; one trailing empty segment of the base is removed first. The base
//! must be absolute (it must be able to carry a path); other bases fail
//! fast, and only the `url` crate can decide that.

use vstd::prelude::*;
use crate::config::Network;
use crate::text::chars_of;
use crate::text::dec_text;
use crate::text::push_all;
use crate::text::string_of;
use crate::text::u64_to_string;
use crate::text::with_context;

verus! {

/// What `url::Url::parse` makes of a base-URL candidate: its normalized
/// serialization, or nothing when the text does not parse as an absolute
/// URL that can carry a path.
pub uninterp spec fn parsed_base_url(s: Seq<char>) -> Option<Seq<char>>;

/// Relies on `url::Url::parse` and `Url::cannot_be_a_base`: the result is
/// the parsed URL's normalized serialization; it is `None` exactly when the
/// text does not parse, or parses as a URL that cannot carry a path.
#[verifier::external_body]
fn normalize_base_url(s: &str) -> (r: Option<String>)
    ensures
        (r is Some) == (parsed_base_url(s@) is Some),
        r matches Some(u) ==> parsed_base_url(s@) == Some(u@),
{
    match url::Url::parse(s) {
        Ok(u) => {
            if u.cannot_be_a_base() {
                None
            } else {
                Some(String::from(u))
            }
        },
        Err(_) => None,
    }
}

/// A normalized base with one trailing empty path segment removed.
pub open spec fn base_root(s: Seq<char>) -> Seq<char> {
    if s.len() > 0 && s.last() == '/' {
        s.drop_last()
    } else {
        s
    }
}

/// The program URL under a normalized base.
pub open spec fn program_url_text(base: Seq<char>, id: Seq<char>, edition: Option<u16>) -> Seq<
    char,
> {
    base_root(base) + "/program/"@ + id + (match edition {
        Some(e) => seq!['/'] + dec_text(e as nat),
        None => Seq::empty(),
    })
}

/// The latest-edition URL under a normalized base.
pub open spec fn edition_url_text(base: Seq<char>, id: Seq<char>) -> Seq<char> {
    base_root(base) + "/program/"@ + id + "/latest_edition"@
}

/// The message when a base is not absolute.
pub open spec fn invalid_base_text(base: Seq<char>) -> Seq<char> {
    "Invalid program API base"@ + ": "@ + base
}

/// Appends `/program/{id}` and, when given, `/{edition}` to the base root.
fn push_program_path(out: &mut Vec<char>, program_id: &str, edition: Option<u16>)
    ensures
        final(out)@ == old(out)@ + "/program/"@ + program_id@ + (match edition {
            Some(e) => seq!['/'] + dec_text(e as nat),
            None => Seq::<char>::empty(),
        }),
{
    let prefix = chars_of("/program/");
    push_all(out, &prefix);
    let id = chars_of(program_id);
    push_all(out, &id);
    match edition {
        Some(e) => {
            out.push('/');
            let digits = chars_of(u64_to_string(e as u64).as_str());
            push_all(out, &digits);
            proof {
                assert(out@ =~= old(out)@ + "/program/"@ + program_id@ + (seq!['/']
                    + dec_text(e as nat)));
            }
        },
        None => {
            proof {
                assert(out@ =~= old(out)@ + "/program/"@ + program_id@ + Seq::<char>::empty());
            }
        },
    }
}

/// The URL a program is fetched from. Fails exactly when the base is not an
/// absolute URL.
pub fn build_program_url(base: &str, program_id: &str, edition: Option<u16>) -> (r: Result<
    String,
    String,
>)
    ensures
        match r {
            Ok(u) => parsed_base_url(base@) matches Some(b) && u@ == program_url_text(
                b,
                program_id@,
                edition,
            ),
            Err(e) => parsed_base_url(base@) is None && e@ == invalid_base_text(base@),
        },
{
    match normalize_base_url(base) {
        Some(normalized) => {
            let cs = chars_of(normalized.as_str());
            let mut out = trim_one_slash(&cs);
            push_program_path(&mut out, program_id, edition);
            Ok(string_of(&out))
        },
        None => Err(with_context("Invalid program API base", base)),
    }
}

/// The URL a program's latest edition is fetched from. Fails exactly when
/// the base is not an absolute URL.
pub fn build_edition_url(base: &str, program_id: &str) -> (r: Result<String, String>)
    ensures
        match r {
            Ok(u) => parsed_base_url(base@) matches Some(b) && u@ == edition_url_text(
                b,
                program_id@,
            ),
            Err(e) => parsed_base_url(base@) is None && e@ == invalid_base_text(base@),
        },
{
    match normalize_base_url(base) {
        Some(normalized) => {
            let cs = chars_of(normalized.as_str());
            let mut out = trim_one_slash(&cs);
            let prefix = chars_of("/program/");
            push_all(&mut out, &prefix);
            let id = chars_of(program_id);
            push_all(&mut out, &id);
            let suffix = chars_of("/latest_edition");
            push_all(&mut out, &suffix);
            Ok(string_of(&out))
        },
        None => Err(with_context("Invalid program API base", base)),
    }
}

/// The program URL under a network's REST root.
pub fn build_network_program_url(network: Network, program_id: &str, edition: Option<u16>) -> (r:
    Result<String, String>)
    ensures
        match r {
            Ok(u) => parsed_base_url(network.rest_base_text()) matches Some(b) && u@
                == program_url_text(b, program_id@, edition),
            Err(e) => parsed_base_url(network.rest_base_text()) is None && e@ == invalid_base_text(
                network.rest_base_text(),
            ),
        },
{
    let base = network.rest_base_url();
    build_program_url(base.as_str(), program_id, edition)
}

/// The characters with at most one trailing slash removed.
fn trim_one_slash(v: &Vec<char>) -> (r: Vec<char>)
    ensures
        r@ == base_root(v@),
{
    let end: usize = if v.len() > 0 && v[v.len() - 1] == '/' {
        v.len() - 1
    } else {
        v.len()
    };
    let mut out: Vec<char> = Vec::new();
    let mut i: usize = 0;
    while i < end
        invariant
            i <= end <= v.len(),
            out@ == v@.subrange(0, i as int),
        decreases end - i,
    {
        out.push(v[i]);
        proof {
            assert(v@.subrange(0, i + 1) =~= v@.subrange(0, i as int).push(v@[i as int]));
        }
        i = i + 1;
    }
    proof {
        if v@.len() > 0 && v@.last() == '/' {
            assert(v@.subrange(0, end as int) =~= v@.drop_last());
        } else {
            assert(v@.subrange(0, end as int) =~= v@);
        }
    }
    out
}

} // verus!
