//! Bulk extraction for the remote-archive source: every entry of a fetched
//! archive whose path names a schema file is parsed and keyed by the last
//! four segments of its path; malformed entries are skipped and do not abort
//! the batch.

use vstd::prelude::*;

use crate::json::{parse_schema_document, parsed_document, JsonValue};

verus! {

/// How many `/` separators a run of characters holds.
pub open spec fn sep_count(s: Seq<char>) -> int
    decreases s.len(),
{
    if s.len() == 0 {
        0
    } else {
        (if s[0] == '/' {
            1int
        } else {
            0int
        }) + sep_count(s.drop_first())
    }
}

/// The position where the last four segments of `s` begin: the shortest
/// suffix holding exactly three separators, starting at a segment boundary.
pub open spec fn key_start(s: Seq<char>) -> int
    decreases s.len(),
{
    if sep_count(s) <= 3 {
        0
    } else {
        1 + key_start(s.drop_first())
    }
}

/// Whether `path` ends in the schema file extension `.json`.
pub open spec fn ends_with_json(path: Seq<char>) -> bool {
    path.len() >= 5 && path[path.len() - 5] == '.' && path[path.len() - 4] == 'j' && path[path.len()
        - 3] == 's' && path[path.len() - 2] == 'o' && path[path.len() - 1] == 'n'
}

/// The cache key of an archive entry: its path must end in `.json` and hold
/// at least four segments; the key is the last four, with the extension
/// removed from the final one.
pub open spec fn entry_key(path: Seq<char>) -> Option<Seq<char>> {
    if !ends_with_json(path) {
        None
    } else {
        let stem = path.take(path.len() - 5);
        if sep_count(stem) < 3 {
            None
        } else {
            Some(stem.skip(key_start(stem)))
        }
    }
}

/// Derives the cache key of one archive entry from its internal path, if the
/// path is deep enough and names a schema file.
#[verifier::loop_isolation(false)]
pub fn entry_cache_key(path: &str) -> (r: Option<String>)
    ensures
        match r {
            Some(k) => entry_key(path@) == Some(k@),
            None => entry_key(path@) is None,
        },
{
    let n = path.unicode_len();
    if n < 5 {
        return None;
    }
    if path.get_char(n - 5) != '.' || path.get_char(n - 4) != 'j' || path.get_char(n - 3) != 's'
        || path.get_char(n - 2) != 'o' || path.get_char(n - 1) != 'n' {
        return None;
    }
    let stem_len = n - 5;
    let ghost stem = path@.take(stem_len as int);
    let mut seps: usize = 0;
    let mut i: usize = stem_len;
    while i > 0
        invariant
            i <= stem_len,
            seps == sep_count(stem.skip(i as int)),
            seps <= stem_len - i,
        decreases i,
    {
        i = i - 1;
        proof {
            assert(stem.skip(i as int).drop_first() =~= stem.skip(i + 1 as int));
            assert(stem.skip(i as int)[0] == stem[i as int]);
        }
        if path.get_char(i) == '/' {
            seps = seps + 1;
        }
    }
    proof {
        assert(stem.skip(0) =~= stem);
    }
    if seps < 3 {
        return None;
    }
    let mut remaining: usize = seps;
    let mut cut: usize = 0;
    while remaining > 3
        invariant
            cut <= stem_len,
            remaining == sep_count(stem.skip(cut as int)),
            key_start(stem) == cut + key_start(stem.skip(cut as int)),
        decreases stem_len - cut,
    {
        proof {
            if stem.skip(cut as int).len() == 0 {
                assert(sep_count(stem.skip(cut as int)) == 0);
            }
            assert(stem.skip(cut as int).drop_first() =~= stem.skip(cut + 1 as int));
            assert(stem.skip(cut as int)[0] == stem[cut as int]);
        }
        let c = path.get_char(cut);
        if c == '/' {
            remaining = remaining - 1;
        }
        cut = cut + 1;
    }
    let key = path.substring_char(cut, stem_len);
    proof {
        assert(key@ =~= stem.skip(cut as int));
        assert(key_start(stem) == cut);
    }
    Some(key.to_owned())
}

/// The batch an archive's entries extract to: each entry whose path yields a
/// key and whose content parses contributes one (key, document) pair, in
/// entry order; the rest are skipped.
pub open spec fn spec_archive_batch(entries: Seq<(String, String)>) -> Seq<(Seq<char>, JsonValue)>
    decreases entries.len(),
{
    if entries.len() == 0 {
        Seq::empty()
    } else {
        spec_archive_batch(entries.drop_last()) + (match (
            entry_key(entries.last().0@),
            parsed_document(entries.last().1@),
        ) {
            (Some(k), Some(d)) => seq![(k, d)],
            _ => Seq::empty(),
        })
    }
}

/// Extracts a batch of (cache key, document) pairs from an archive's entries,
/// each given as (internal path, text content). Entries that do not name a
/// schema file, are too shallow, or do not parse are skipped, and do not
/// abort the batch.
#[verifier::loop_isolation(false)]
pub fn extract_archive_batch(entries: &Vec<(String, String)>) -> (r: Vec<(String, JsonValue)>)
    ensures
        r@.map_values(|p: (String, JsonValue)| (p.0@, p.1)) == spec_archive_batch(entries@),
{
    let mut out: Vec<(String, JsonValue)> = Vec::new();
    let mut i: usize = 0;
    while i < entries.len()
        invariant
            i <= entries.len(),
            out@.map_values(|p: (String, JsonValue)| (p.0@, p.1)) == spec_archive_batch(
                entries@.take(i as int),
            ),
        decreases entries.len() - i,
    {
        proof {
            assert(entries@.take(i + 1 as int).drop_last() =~= entries@.take(i as int));
            assert(entries@.take(i + 1 as int).last() == entries@[i as int]);
        }
        let e = &entries[i];
        match entry_cache_key(e.0.as_str()) {
            Some(k) => {
                match parse_schema_document(e.1.as_str()) {
                    Some(d) => {
                        out.push((k, d));
                    },
                    None => {},
                }
            },
            None => {},
        }
        proof {
            assert(out@.map_values(|p: (String, JsonValue)| (p.0@, p.1)) =~= spec_archive_batch(
                entries@.take(i + 1 as int),
            ));
        }
        i = i + 1;
    }
    proof {
        assert(entries@.take(entries@.len() as int) =~= entries@);
    }
    out
}

} // verus!
