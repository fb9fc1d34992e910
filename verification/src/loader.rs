//! The schema loader: owns the cache and serves lookups. Schemas are acquired
//! once, eagerly, by walking an ordered chain of sources; the first source
//! that yields at least one schema wins and the rest are never attempted.
//! Fetching the raw material of a source (a file, a bundled asset, a remote
//! archive) is outside work; the loader is driven with each source's outcome
//! and makes every decision of the chain here, under contract.

use vstd::prelude::*;

use crate::cache::{insert_batch, map_at, SchemaCache};
use crate::json::{parse_schema_document, parsed_document, JsonValue};

verus! {

/// The composite key under which a schema document is cached.
pub open spec fn spec_cache_key(
    domain: Seq<char>,
    version: Seq<char>,
    category: Seq<char>,
    name: Seq<char>,
) -> Seq<char> {
    domain + "/"@ + version + "/"@ + category + "/"@ + name
}

/// Builds the composite cache key `domain/version/category/name`.
pub fn make_cache_key(domain: &str, version: &str, category: &str, name: &str) -> (r: String)
    ensures
        r@ == spec_cache_key(domain@, version@, category@, name@),
{
    let mut key = String::from_str(domain);
    key.append("/");
    key.append(version);
    key.append("/");
    key.append(category);
    key.append("/");
    key.append(name);
    proof {
        assert(key@ =~= spec_cache_key(domain@, version@, category@, name@));
    }
    key
}

/// Default timeout of a single remote fetch, in seconds.
pub const DEFAULT_FETCH_TIMEOUT_SECS: u64 = 30;

/// Default cap on a remote response's size, in bytes, bounding memory use
/// against an oversized or malicious response.
pub const DEFAULT_MAX_RESPONSE_BYTES: u64 = 50 * 1024 * 1024;

/// Whether `c` is a decimal digit.
pub open spec fn is_digit(c: char) -> bool {
    48 <= c as u32 <= 57
}

/// The value of a digit character.
pub open spec fn digit_val(c: char) -> int {
    c as u32 - 48
}

/// The value of a run of digit characters, most significant first.
pub open spec fn digits_val(s: Seq<char>) -> int
    decreases s.len(),
{
    if s.len() == 0 {
        0
    } else {
        digits_val(s.drop_last()) * 10 + digit_val(s.last())
    }
}

/// Whether every character of `s` is a decimal digit.
pub open spec fn all_digits(s: Seq<char>) -> bool {
    forall|i: int| 0 <= i < s.len() ==> is_digit(s[i])
}

/// `s` with every lowercase `v` removed.
pub open spec fn strip_v(s: Seq<char>) -> Seq<char>
    decreases s.len(),
{
    if s.len() == 0 {
        Seq::empty()
    } else {
        strip_v(s.drop_last()) + (if s.last() == 'v' {
            Seq::<char>::empty()
        } else {
            seq![s.last()]
        })
    }
}

/// The numeric reading of a version string: every `v` is removed, and what
/// remains is read as a decimal integer with an optional sign; anything that
/// is not such an integer, or does not fit, reads as 1.
pub open spec fn spec_parsed_version(version: Seq<char>) -> i32 {
    let t = strip_v(version);
    let negative = t.len() > 0 && t[0] == '-';
    let digits = if t.len() > 0 && (t[0] == '-' || t[0] == '+') {
        t.drop_first()
    } else {
        t
    };
    if digits.len() > 0 && all_digits(digits) && (if negative {
        digits_val(digits) <= 0x8000_0000
    } else {
        digits_val(digits) <= 0x7fff_ffff
    }) {
        if negative {
            (-digits_val(digits)) as i32
        } else {
            digits_val(digits) as i32
        }
    } else {
        1
    }
}

proof fn lemma_digits_val_nonneg(s: Seq<char>)
    requires
        all_digits(s),
    ensures
        digits_val(s) >= 0,
    decreases s.len(),
{
    if s.len() > 0 {
        assert(all_digits(s.drop_last()));
        lemma_digits_val_nonneg(s.drop_last());
    }
}

proof fn lemma_digits_val_grow(s: Seq<char>, k: int)
    requires
        all_digits(s),
        0 <= k <= s.len(),
    ensures
        digits_val(s.take(k)) <= digits_val(s),
    decreases s.len() - k,
{
    if k == s.len() {
        assert(s.take(k) =~= s);
    } else {
        assert(all_digits(s.drop_last()));
        assert(s.drop_last().take(k) =~= s.take(k));
        lemma_digits_val_grow(s.drop_last(), k);
        lemma_digits_val_nonneg(s.drop_last());
    }
}

/// The conventional path of a schema file under a filesystem root:
/// `root/domain/version/category/name.json`.
pub open spec fn spec_schema_file_path(
    root: Seq<char>,
    domain: Seq<char>,
    version: Seq<char>,
    category: Seq<char>,
    name: Seq<char>,
) -> Seq<char> {
    root + "/"@ + domain + "/"@ + version + "/"@ + category + "/"@ + name + ".json"@
}

/// Builds the conventional path of a schema file under a filesystem root.
pub fn schema_file_path(
    root: &str,
    domain: &str,
    version: &str,
    category: &str,
    name: &str,
) -> (r: String)
    ensures
        r@ == spec_schema_file_path(root@, domain@, version@, category@, name@),
{
    let mut p = String::from_str(root);
    p.append("/");
    p.append(domain);
    p.append("/");
    p.append(version);
    p.append("/");
    p.append(category);
    p.append("/");
    p.append(name);
    p.append(".json");
    proof {
        assert(p@ =~= spec_schema_file_path(root@, domain@, version@, category@, name@));
    }
    p
}

/// Whether a directory name is a version directory: a lowercase `v` followed
/// by one or more digits.
pub open spec fn spec_is_version_dir(s: Seq<char>) -> bool {
    s.len() >= 2 && s[0] == 'v' && (forall|i: int| 1 <= i < s.len() ==> is_digit(s[i]))
}

/// Checks whether a directory name is a version directory, `v` then digits.
#[verifier::loop_isolation(false)]
pub fn is_version_dir_name(name: &str) -> (r: bool)
    ensures
        r == spec_is_version_dir(name@),
{
    let n = name.unicode_len();
    if n < 2 {
        return false;
    }
    if name.get_char(0) != 'v' {
        return false;
    }
    let mut i: usize = 1;
    while i < n
        invariant
            1 <= i <= n,
            forall|j: int| 1 <= j < i ==> is_digit(name@[j]),
        decreases n - i,
    {
        let c = name.get_char(i);
        if c < '0' || c > '9' {
            return false;
        }
        i = i + 1;
    }
    true
}

/// Where the loader stands in its life cycle: sources are walked exactly
/// once, and a cleared cache is never re-resolved.
#[derive(Clone, Copy, Debug, PartialEq, Eq, Structural)]
pub enum LoaderStatus {
    Uninitialized,
    Resolving,
    Ready,
    Failed,
}

/// What one schema source produced when it was attempted: a failure (with its
/// report), or a batch of (cache key, document) pairs. An empty batch counts
/// as yielding nothing, so the chain moves on.
#[derive(Debug)]
pub enum SourceOutcome {
    Failure(String),
    Batch(Vec<(String, JsonValue)>),
}

impl SourceOutcome {
    /// Whether this outcome supplies at least one schema.
    pub open spec fn yields_schemas(&self) -> bool {
        match self {
            SourceOutcome::Batch(b) => b@.len() > 0,
            SourceOutcome::Failure(_) => false,
        }
    }

    /// The entries this outcome supplies.
    pub open spec fn spec_batch(&self) -> Seq<(String, JsonValue)> {
        match self {
            SourceOutcome::Batch(b) => b@,
            SourceOutcome::Failure(_) => Seq::empty(),
        }
    }
}

/// The index of the first outcome of a chain that yields schemas, if any:
/// the source whose batch wins the fallback.
pub open spec fn first_yielding(outcomes: Seq<SourceOutcome>) -> Option<int>
    decreases outcomes.len(),
{
    if outcomes.len() == 0 {
        None
    } else if outcomes[0].yields_schemas() {
        Some(0int)
    } else {
        match first_yielding(outcomes.drop_first()) {
            Some(i) => Some(i + 1),
            None => None,
        }
    }
}

proof fn lemma_first_yielding_prefix(outcomes: Seq<SourceOutcome>, k: int)
    requires
        0 <= k <= outcomes.len(),
        forall|j: int| 0 <= j < k ==> !(#[trigger] outcomes[j].yields_schemas()),
    ensures
        k < outcomes.len() && outcomes[k].yields_schemas() ==> first_yielding(outcomes) == Some(k),
        k == outcomes.len() ==> first_yielding(outcomes) is None,
    decreases outcomes.len(),
{
    if k == 0 {
    } else {
        assert(!outcomes[0].yields_schemas());
        assert(forall|j: int|
            0 <= j < k - 1 ==> !(#[trigger] outcomes.drop_first()[j].yields_schemas()));
        lemma_first_yielding_prefix(outcomes.drop_first(), k - 1);
        if k < outcomes.len() {
            assert(outcomes.drop_first()[k - 1] == outcomes[k]);
        }
    }
}

/// Loads schemas from an ordered fallback chain of sources into an owned
/// cache, then serves lookups keyed by the loader's domain and version
/// together with a requested category and name.
pub struct SchemaLoader {
    pub schema_cache: SchemaCache,
    pub schema_root: String,
    pub domain: String,
    pub version: String,
    pub status: LoaderStatus,
    pub next_source: usize,
    pub total_sources: usize,
}

impl SchemaLoader {
    /// A fresh loader. The root, domain and version must all be given: there
    /// is no degraded mode without them.
    pub fn new(schema_root: String, domain: String, version: String) -> (r: SchemaLoader)
        requires
            schema_root@.len() > 0,
            domain@.len() > 0,
            version@.len() > 0,
        ensures
            r.schema_root == schema_root,
            r.domain == domain,
            r.version == version,
            r.schema_cache.contents() == Map::<Seq<char>, JsonValue>::empty(),
            r.status == LoaderStatus::Uninitialized,
    {
        SchemaLoader {
            schema_cache: SchemaCache::new(),
            schema_root,
            domain,
            version,
            status: LoaderStatus::Uninitialized,
            next_source: 0,
            total_sources: 0,
        }
    }

    /// Starts the walk over a chain of `total_sources` sources. An empty
    /// chain is a configuration error and fails outright.
    pub fn begin_resolution(&mut self, total_sources: usize)
        requires
            old(self).status == LoaderStatus::Uninitialized,
        ensures
            final(self).schema_root == old(self).schema_root,
            final(self).domain == old(self).domain,
            final(self).version == old(self).version,
            final(self).schema_cache == old(self).schema_cache,
            final(self).total_sources == total_sources,
            total_sources == 0 ==> final(self).status == LoaderStatus::Failed,
            total_sources > 0 ==> final(self).status == LoaderStatus::Resolving
                && final(self).next_source == 0,
    {
        self.total_sources = total_sources;
        self.next_source = 0;
        if total_sources == 0 {
            self.status = LoaderStatus::Failed;
        } else {
            self.status = LoaderStatus::Resolving;
        }
    }

    /// The index of the source to attempt next, while the walk is under way;
    /// nothing once the loader is ready or has failed, so no source past a
    /// success is ever attempted.
    pub fn pending_source(&self) -> (r: Option<usize>)
        ensures
            r == (if self.status == LoaderStatus::Resolving {
                Some(self.next_source)
            } else {
                None::<usize>
            }),
    {
        if self.status == LoaderStatus::Resolving {
            Some(self.next_source)
        } else {
            None
        }
    }

    /// Takes the outcome of the pending source. The first outcome that yields
    /// at least one schema populates the cache and ends the walk; a failure
    /// or an empty batch contributes nothing and the walk moves to the next
    /// source, or fails once the chain is exhausted.
    pub fn apply_source_outcome(&mut self, outcome: SourceOutcome)
        requires
            old(self).status == LoaderStatus::Resolving,
            old(self).next_source < old(self).total_sources,
        ensures
            final(self).schema_root == old(self).schema_root,
            final(self).domain == old(self).domain,
            final(self).version == old(self).version,
            final(self).total_sources == old(self).total_sources,
            outcome.yields_schemas() ==> final(self).status == LoaderStatus::Ready
                && final(self).next_source == old(self).next_source
                && final(self).schema_cache.contents() == insert_batch(
                old(self).schema_cache.contents(),
                outcome.spec_batch(),
            ),
            !outcome.yields_schemas() ==> final(self).schema_cache.contents()
                == old(self).schema_cache.contents()
                && (if old(self).next_source + 1 < old(self).total_sources {
                final(self).status == LoaderStatus::Resolving
                    && final(self).next_source == old(self).next_source + 1
            } else {
                final(self).status == LoaderStatus::Failed
            }),
    {
        match outcome {
            SourceOutcome::Batch(batch) => {
                if batch.len() > 0 {
                    self.schema_cache.insert_all(batch);
                    self.status = LoaderStatus::Ready;
                    return;
                }
            },
            SourceOutcome::Failure(_) => {},
        }
        if self.next_source + 1 < self.total_sources {
            self.next_source = self.next_source + 1;
            self.status = LoaderStatus::Resolving;
        } else {
            self.status = LoaderStatus::Failed;
        }
    }

    /// Walks a whole fallback chain at once, strictly in order: the first
    /// outcome that yields at least one schema populates the cache with
    /// exactly its batch and ends the walk with the loader ready and no
    /// source pending; earlier failing outcomes contribute nothing; a chain
    /// with no yielding outcome leaves the cache untouched and the loader
    /// failed.
    pub fn resolve_chain(&mut self, outcomes: Vec<SourceOutcome>)
        requires
            old(self).status == LoaderStatus::Uninitialized,
        ensures
            final(self).schema_root == old(self).schema_root,
            final(self).domain == old(self).domain,
            final(self).version == old(self).version,
            match first_yielding(outcomes@) {
                Some(i) => final(self).status == LoaderStatus::Ready && final(self).next_source
                    == i && final(self).schema_cache.contents() == insert_batch(
                    old(self).schema_cache.contents(),
                    outcomes@[i as int].spec_batch(),
                ),
                None => final(self).status == LoaderStatus::Failed
                    && final(self).schema_cache.contents() == old(self).schema_cache.contents(),
            },
    {
        let ghost all = outcomes@;
        let mut outcomes = outcomes;
        let total = outcomes.len();
        self.begin_resolution(total);
        let mut k: usize = 0;
        #[verifier::loop_isolation(false)]
        while k < total
            invariant
                k <= total,
                outcomes@ == all.skip(k as int),
                self.schema_root == old(self).schema_root,
                self.domain == old(self).domain,
                self.version == old(self).version,
                self.total_sources == total,
                self.schema_cache.contents() == old(self).schema_cache.contents(),
                forall|j: int| 0 <= j < k ==> !(#[trigger] all[j].yields_schemas()),
                k < total ==> self.status == LoaderStatus::Resolving && self.next_source == k,
                k == total ==> self.status == LoaderStatus::Failed,
            decreases total - k,
        {
            proof {
                assert(all.skip(k as int)[0] == all[k as int]);
                assert(all.skip(k as int).remove(0) =~= all.skip(k + 1 as int));
            }
            let o = outcomes.remove(0);
            let ghost yielded = o.yields_schemas();
            let is_batch_hit = match &o {
                SourceOutcome::Batch(b) => b.len() > 0,
                SourceOutcome::Failure(_) => false,
            };
            self.apply_source_outcome(o);
            if is_batch_hit {
                proof {
                    lemma_first_yielding_prefix(all, k as int);
                }
                return;
            }
            k = k + 1;
        }
        proof {
            lemma_first_yielding_prefix(all, total as int);
        }
    }

    /// Serves `category`/`name` from the cache under the loader's domain and
    /// version. A miss means the schema is not there: nothing is re-resolved.
    pub fn load_schema(&self, category: &str, name: &str) -> (r: Option<&JsonValue>)
        ensures
            match r {
                Some(d) => map_at(
                    self.schema_cache.contents(),
                    spec_cache_key(self.domain@, self.version@, category@, name@),
                ) == Some(*d),
                None => map_at(
                    self.schema_cache.contents(),
                    spec_cache_key(self.domain@, self.version@, category@, name@),
                ) is None,
            },
    {
        let key = make_cache_key(
            self.domain.as_str(),
            self.version.as_str(),
            category,
            name,
        );
        self.schema_cache.get(key.as_str())
    }

    /// Parses a schema document from a raw string.
    pub fn load_schema_from_string(&self, schema_content: &str) -> (r: Option<JsonValue>)
        ensures
            r == parsed_document(schema_content@),
    {
        parse_schema_document(schema_content)
    }

    /// Empties the cache and nothing else: the loader does not return to
    /// resolving, so every following lookup misses until a new loader is
    /// built.
    pub fn clear_cache(&mut self)
        ensures
            final(self).schema_cache.contents() == Map::<Seq<char>, JsonValue>::empty(),
            final(self).schema_root == old(self).schema_root,
            final(self).domain == old(self).domain,
            final(self).version == old(self).version,
            final(self).status == old(self).status,
            final(self).next_source == old(self).next_source,
            final(self).total_sources == old(self).total_sources,
    {
        self.schema_cache.clear();
    }

    /// The configured version read as a number: every `v` removed, the rest
    /// as a signed decimal integer; 1 when what remains is not one or does
    /// not fit.
    #[verifier::loop_isolation(false)]
    pub fn get_parsed_version(&self) -> (r: i32)
        ensures
            r == spec_parsed_version(self.version@),
    {
        let v = self.version.as_str();
        let n = v.unicode_len();
        let mut t: Vec<char> = Vec::new();
        let mut i: usize = 0;
        while i < n
            invariant
                i <= n,
                t@ == strip_v(v@.take(i as int)),
            decreases n - i,
        {
            let c = v.get_char(i);
            proof {
                assert(v@.take(i + 1 as int).drop_last() =~= v@.take(i as int));
                assert(v@.take(i + 1 as int).last() == v@[i as int]);
            }
            if c != 'v' {
                t.push(c);
            }
            proof {
                assert(t@ =~= strip_v(v@.take(i + 1 as int)));
            }
            i = i + 1;
        }
        proof {
            assert(v@.take(n as int) =~= v@);
        }
        let ghost ts = t@;
        let tn = t.len();
        if tn == 0 {
            return 1;
        }
        let first = t[0];
        let negative = first == '-';
        let start: usize = if first == '-' || first == '+' {
            1
        } else {
            0
        };
        if tn == start {
            return 1;
        }
        let ghost digits = ts.skip(start as int);
        proof {
            if start == 1 {
                assert(ts.drop_first() =~= digits);
            } else {
                assert(ts =~= digits);
            }
        }
        let limit: i64 = if negative {
            0x8000_0000
        } else {
            0x7fff_ffff
        };
        let mut acc: i64 = 0;
        let mut j: usize = start;
        while j < tn
            invariant
                start <= j <= tn,
                0 <= acc <= limit,
                acc == digits_val(digits.take(j - start)),
                forall|k: int| 0 <= k < j - start ==> is_digit(digits[k]),
            decreases tn - j,
        {
            let c = t[j];
            let cu = c as u32;
            proof {
                assert(digits.take(j + 1 - start).drop_last() =~= digits.take(j - start));
                assert(digits.take(j + 1 - start).last() == digits[j - start]);
            }
            if cu < 48 || cu > 57 {
                proof {
                    assert(!is_digit(digits[j - start]));
                    assert(!all_digits(digits));
                }
                return 1;
            }
            let d = (cu - 48) as i64;
            let nacc = acc * 10 + d;
            if nacc > limit {
                proof {
                    if all_digits(digits) {
                        lemma_digits_val_grow(digits, j + 1 - start);
                    }
                }
                return 1;
            }
            acc = nacc;
            j = j + 1;
        }
        proof {
            assert(digits.take(tn - start) =~= digits);
        }
        if negative {
            (-acc) as i32
        } else {
            acc as i32
        }
    }

    /// The configured root or location parameter, kept for diagnostics.
    pub fn get_schema_root(&self) -> (r: &str)
        ensures
            r@ == self.schema_root@,
    {
        self.schema_root.as_str()
    }

    /// The configured domain.
    pub fn get_domain(&self) -> (r: &str)
        ensures
            r@ == self.domain@,
    {
        self.domain.as_str()
    }

    /// The configured version.
    pub fn get_version(&self) -> (r: &str)
        ensures
            r@ == self.version@,
    {
        self.version.as_str()
    }
}

} // verus!
