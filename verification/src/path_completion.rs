//! Paths as the user types them, and their completion.
use crate::errors::{CompletionError, PathError};
use crate::order::{is_stable_sort, picked, ranks, stable_order, Rank, SortKey};
use crate::paths::{
    absolute, extension, goes_to_a_drive, is_absolute, join, joined, path_bytes,
    path_extension, path_from,
};
use crate::text::{
    begins_with, byte_length, chars_of, is_text_le, lemma_text_le_total, lemma_text_le_transitive,
    lowercased, same_text, text_le, text_of, trimmed,
};
use std::path::PathBuf;
use vstd::prelude::*;
use vstd::string::*;
use vstd::utf8::{
    encode_scalar, encode_utf8, leading_byte_width_2, leading_byte_width_3, leading_byte_width_4,
};

verus! {

// ---------------------------------------------------------------------------------------------
// Typed paths
// ---------------------------------------------------------------------------------------------

/// What typed paths depend on: the home directory that the environment names, and the current
/// directory. Where one cannot be had, the reason stands in its place.
#[derive(Debug)]
pub struct UserEnvironment {
    pub home: Result<String, String>,
    pub cwd: Result<PathBuf, String>,
}

/// Whether a text begins with a tilde and a slash.
pub open spec fn has_home_mark(s: Seq<char>) -> bool {
    s.len() >= 2 && s[0] == '~' && s[1] == '/'
}

/// A text without the pairs of a tilde and a slash in front of it.
pub open spec fn without_home_marks(s: Seq<char>) -> Seq<char>
    decreases s.len(),
{
    if has_home_mark(s) {
        without_home_marks(s.skip(2))
    } else {
        s
    }
}

/// Whether a typed path starts at the home directory.
pub open spec fn starts_at_home(s: Seq<char>) -> bool {
    s == seq!['~'] || has_home_mark(s)
}

/// The path that a text without white space at its ends spells.
pub open spec fn spelled_path(s: Seq<char>, home: Seq<char>) -> Seq<u8> {
    if s == seq!['~'] {
        encode_utf8(home)
    } else if has_home_mark(s) {
        joined(encode_utf8(home), encode_utf8(without_home_marks(s)))
    } else {
        encode_utf8(s)
    }
}

/// The place that a typed path stands for: `~` is the home directory, and a path that is not
/// absolute starts at the current directory.
pub open spec fn resolved(input: Seq<char>, env: UserEnvironment) -> Result<Seq<u8>, PathError> {
    let typed = trimmed(input);
    if typed.len() == 0 {
        Err(PathError::Empty)
    } else if starts_at_home(typed) && env.home is Err {
        Err(PathError::HomeNotSet { detail: env.home->Err_0 })
    } else {
        let path = spelled_path(typed, env.home->Ok_0@);
        if absolute(path) {
            Ok(path)
        } else {
            match env.cwd {
                Ok(cwd) => Ok(joined(path_bytes(cwd), path)),
                Err(detail) => Err(PathError::NoWorkingDirectory { detail }),
            }
        }
    }
}

/// Whether a text without white space at its ends is an absolute path.
pub open spec fn stands_for_itself(s: Seq<char>) -> bool {
    s.len() > 0 && absolute(encode_utf8(s))
}

/// Whether a place is independent of the current directory, or of all of it but the drive that it
/// is on.
pub open spec fn is_settled(path: Seq<u8>) -> bool {
    absolute(path) || goes_to_a_drive(path)
}

/// Whether the current directory, where there is one, is an absolute path, as that of the system
/// is.
pub open spec fn has_absolute_cwd(env: UserEnvironment) -> bool {
    env.cwd matches Ok(cwd) ==> absolute(path_bytes(cwd))
}

/// The first byte of a text that begins with an ASCII character is that character.
pub proof fn lemma_first_byte(s: Seq<char>)
    requires
        s.len() > 0,
    ensures
        encode_utf8(s).len() > 0,
        encode_utf8(s)[0] < 128 <==> (s[0] as u32) < 128,
        (s[0] as u32) < 128 ==> encode_utf8(s)[0] == s[0] as u32,
{
    let code = s[0] as u32;
    let bytes = encode_scalar(code);
    assert(encode_utf8(s)[0] == bytes[0]);
    assert(code < 128 ==> (code & 0x7F) as u8 == code) by (bit_vector);
    assert(leading_byte_width_2(code) >= 128) by (bit_vector);
    assert(leading_byte_width_3(code) >= 128) by (bit_vector);
    assert(leading_byte_width_4(code) >= 128) by (bit_vector);
}

/// The place that a typed path stands for. An absolute path stands for itself, and what any other
/// path stands for is settled where the current directory is.
pub fn resolve_user_path(input: &str, env: &UserEnvironment) -> (res: Result<PathBuf, PathError>)
    ensures
        match res {
            Ok(path) => resolved(input@, *env) == Ok::<Seq<u8>, PathError>(path_bytes(path)),
            Err(error) => resolved(input@, *env) == Err::<Seq<u8>, PathError>(error),
        },
        stands_for_itself(trimmed(input@)) ==> res is Ok && path_bytes(res->Ok_0) == encode_utf8(
            trimmed(input@),
        ),
        has_absolute_cwd(*env) && res is Ok ==> is_settled(path_bytes(res->Ok_0)),
{
    let typed = input.trim();
    if typed.is_empty() {
        return Err(PathError::Empty);
    }
    proof {
        lemma_first_byte(typed@);
        reveal_strlit("~");
        assert("~"@ =~= seq!['~']);
    }
    let chars = chars_of(typed);
    let only_tilde = same_text(typed, "~");
    let path = if only_tilde || (chars.len() >= 2 && chars[0] == '~' && chars[1] == '/') {
        match &env.home {
            Err(detail) => {
                return Err(PathError::HomeNotSet { detail: detail.clone() });
            },
            Ok(home) => {
                let home_path = path_from(home.as_str());
                if only_tilde {
                    home_path
                } else {
                    let mut start: usize = 0;
                    assert(typed@.skip(0) =~= typed@);
                    while chars.len() - start >= 2 && chars[start] == '~' && chars[start + 1]
                        == '/'
                        invariant
                            chars@ == typed@,
                            start <= chars@.len(),
                            without_home_marks(typed@) == without_home_marks(
                                typed@.skip(start as int),
                            ),
                        decreases chars@.len() - start,
                    {
                        assert(typed@.skip(start as int).skip(2) =~= typed@.skip(start + 2));
                        start = start + 2;
                    }
                    let below = text_of(&chars, start, chars.len());
                    assert(below@ =~= typed@.skip(start as int));
                    join(&home_path, &path_from(below.as_str()))
                }
            },
        }
    } else {
        path_from(typed)
    };
    if is_absolute(&path) {
        return Ok(path);
    }
    match &env.cwd {
        Ok(cwd) => Ok(join(cwd, &path)),
        Err(detail) => Err(PathError::NoWorkingDirectory { detail: detail.clone() }),
    }
}

// ---------------------------------------------------------------------------------------------
// Where to look for completions
// ---------------------------------------------------------------------------------------------

/// One past the last slash of a text; 0 where it has none.
pub open spec fn past_last_slash(s: Seq<char>) -> int
    decreases s.len(),
{
    if s.len() == 0 {
        0
    } else if s.last() == '/' {
        s.len() as int
    } else {
        past_last_slash(s.drop_last())
    }
}

/// A text up to and with its last slash, and what stands behind it.
pub fn split_input(input: &str) -> (res: (String, String))
    ensures
        res.0@ == input@.take(past_last_slash(input@)),
        res.1@ == input@.skip(past_last_slash(input@)),
{
    let chars = chars_of(input);
    let mut end: usize = chars.len();
    assert(input@.take(end as int) =~= input@);
    while end > 0 && chars[end - 1] != '/'
        invariant
            chars@ == input@,
            end <= chars@.len(),
            past_last_slash(input@) == past_last_slash(input@.take(end as int)),
        decreases end,
    {
        assert(input@.take(end as int).drop_last() =~= input@.take(end - 1));
        end = end - 1;
    }
    let raw = text_of(&chars, 0, end);
    let rest = text_of(&chars, end, chars.len());
    assert(raw@ =~= input@.take(end as int));
    assert(rest@ =~= input@.skip(end as int));
    (raw, rest)
}

/// Where completions are looked for: the directory to list, the text that leads to it, and the
/// text that the names of its entries begin with.
#[derive(Debug)]
pub struct Lookup {
    pub search_dir: PathBuf,
    pub raw_dir_prefix: String,
    pub entry_prefix: String,
}

/// A `Lookup` in contracts.
pub struct LookupModel {
    pub search_dir: Seq<u8>,
    pub raw_dir_prefix: Seq<char>,
    pub entry_prefix: Seq<char>,
}

impl View for Lookup {
    type V = LookupModel;

    open spec fn view(&self) -> LookupModel {
        LookupModel {
            search_dir: path_bytes(self.search_dir),
            raw_dir_prefix: self.raw_dir_prefix@,
            entry_prefix: self.entry_prefix@,
        }
    }
}

/// Where completions of a text are looked for: below the root where nothing is typed, below the
/// home directory for a tilde alone, and else in the directory that the text names up to its last
/// slash, which is the current one where there is none.
pub open spec fn lookup_for(input: Seq<char>, env: UserEnvironment) -> Result<
    LookupModel,
    PathError,
> {
    if input.len() == 0 {
        Ok(
            LookupModel {
                search_dir: encode_utf8("/"@),
                raw_dir_prefix: "/"@,
                entry_prefix: Seq::empty(),
            },
        )
    } else if input == seq!['~'] {
        match resolved(input, env) {
            Ok(dir) => Ok(
                LookupModel {
                    search_dir: dir,
                    raw_dir_prefix: "~/"@,
                    entry_prefix: Seq::empty(),
                },
            ),
            Err(error) => Err(error),
        }
    } else {
        let raw = input.take(past_last_slash(input));
        let entry = input.skip(past_last_slash(input));
        let dir = if raw.len() == 0 {
            match env.cwd {
                Ok(cwd) => Ok(path_bytes(cwd)),
                Err(detail) => Err(PathError::NoWorkingDirectory { detail }),
            }
        } else {
            resolved(raw, env)
        };
        match dir {
            Ok(dir) => Ok(
                LookupModel { search_dir: dir, raw_dir_prefix: raw, entry_prefix: entry },
            ),
            Err(error) => Err(error),
        }
    }
}

impl Lookup {
    /// Where completions of a text are looked for.
    pub fn from_input(input: &str, env: &UserEnvironment) -> (res: Result<Lookup, PathError>)
        ensures
            match res {
                Ok(lookup) => lookup_for(input@, *env) == Ok::<LookupModel, PathError>(lookup@),
                Err(error) => lookup_for(input@, *env) == Err::<LookupModel, PathError>(error),
            },
    {
        if input.is_empty() {
            return Ok(
                Lookup {
                    search_dir: path_from("/"),
                    raw_dir_prefix: "/".to_owned(),
                    entry_prefix: String::new(),
                },
            );
        }
        proof {
            reveal_strlit("~");
            assert("~"@ =~= seq!['~']);
        }
        if same_text(input, "~") {
            return match resolve_user_path(input, env) {
                Ok(dir) => Ok(
                    Lookup {
                        search_dir: dir,
                        raw_dir_prefix: "~/".to_owned(),
                        entry_prefix: String::new(),
                    },
                ),
                Err(error) => Err(error),
            };
        }
        let (raw_dir_prefix, entry_prefix) = split_input(input);
        let search_dir = if raw_dir_prefix.as_str().is_empty() {
            match &env.cwd {
                Ok(cwd) => cwd.clone(),
                Err(detail) => {
                    return Err(PathError::NoWorkingDirectory { detail: detail.clone() });
                },
            }
        } else {
            match resolve_user_path(raw_dir_prefix.as_str(), env) {
                Ok(dir) => dir,
                Err(error) => {
                    return Err(error);
                },
            }
        };
        Ok(Lookup { search_dir, raw_dir_prefix, entry_prefix })
    }
}

// ---------------------------------------------------------------------------------------------
// Candidates
// ---------------------------------------------------------------------------------------------

/// What is completed: the path of a torrent file, or that of a directory.
#[derive(Clone, Copy, Debug, PartialEq, Eq, Structural)]
pub enum PathCompletionMode {
    TorrentFile,
    Directory,
}

/// A text that the typed one can be completed to.
#[derive(Debug)]
pub struct CompletionCandidate {
    pub replacement: String,
    pub is_dir: bool,
}

/// A `CompletionCandidate` in contracts.
pub struct CandidateModel {
    pub replacement: Seq<char>,
    pub is_dir: bool,
}

impl View for CompletionCandidate {
    type V = CandidateModel;

    open spec fn view(&self) -> CandidateModel {
        CandidateModel { replacement: self.replacement@, is_dir: self.is_dir }
    }
}

/// Candidates in contracts.
pub open spec fn candidate_models(candidates: Seq<CompletionCandidate>) -> Seq<CandidateModel> {
    Seq::new(candidates.len(), |i: int| candidates[i]@)
}

impl Clone for CompletionCandidate {
    fn clone(&self) -> (copy: CompletionCandidate)
        ensures
            copy == *self,
    {
        CompletionCandidate { replacement: self.replacement.clone(), is_dir: self.is_dir }
    }
}

impl CompletionCandidate {
    /// What kind of entry the candidate is.
    pub fn kind_label(&self) -> (label: &'static str)
        ensures
            label@ == (if self.is_dir {
                "dir"@
            } else {
                "torrent"@
            }),
    {
        if self.is_dir {
            "dir"
        } else {
            "torrent"
        }
    }
}

/// The candidates that a typed text, `seed_input`, can be completed to.
#[derive(Clone, Debug)]
pub struct CompletionSet {
    pub seed_input: String,
    pub candidates: Vec<CompletionCandidate>,
}

/// An entry of a directory. Its name is missing where it is no text.
#[derive(Debug)]
pub struct DirEntry {
    pub path: PathBuf,
    pub name: Option<String>,
    pub is_dir: bool,
    pub is_file: bool,
}

/// Why a directory could not be read.
#[derive(Clone, Copy, Debug, PartialEq, Eq, Structural)]
pub enum ReadFailure {
    NotFound,
    PermissionDenied,
    InvalidInput,
    Other,
}

/// What came of listing a directory.
#[derive(Debug)]
pub enum Listing {
    /// The path does not lead to a directory.
    NotADirectory,
    /// The directory could not be read.
    Failed { failure: ReadFailure, detail: String },
    /// The entries that could be read.
    Entries(Vec<DirEntry>),
}

/// A byte, that of the lowercase letter where it is that of an ASCII capital.
pub open spec fn lower_byte(b: u8) -> u8 {
    if 65 <= b <= 90 {
        (b + 32) as u8
    } else {
        b
    }
}

/// Whether bytes spell `torrent`, in ASCII letters of either case.
pub open spec fn spells_torrent(bytes: Seq<u8>) -> bool {
    Seq::new(bytes.len(), |i: int| lower_byte(bytes[i])) == encode_utf8("torrent"@)
}

/// Which entries are offered: directories always, and where a torrent file is completed also the
/// files with the extension `torrent`, in letters of either case.
pub open spec fn mode_admits(
    path: Seq<u8>,
    is_dir: bool,
    is_file: bool,
    mode: PathCompletionMode,
) -> bool {
    ||| is_dir
    ||| {
        &&& is_file
        &&& mode == PathCompletionMode::TorrentFile
        &&& path_extension(path) is Some
        &&& spells_torrent(path_extension(path)->0)
    }
}

/// Whether bytes spell `torrent`, in ASCII letters of either case.
fn is_torrent_spelling(bytes: &Vec<u8>) -> (res: bool)
    ensures
        res == spells_torrent(bytes@),
{
    let wanted = "torrent".as_bytes();
    let ghost lowered = Seq::new(bytes@.len(), |i: int| lower_byte(bytes@[i]));
    if bytes.len() != wanted.len() {
        assert(lowered.len() != wanted@.len());
        return false;
    }
    let mut i: usize = 0;
    while i < bytes.len()
        invariant
            i <= bytes@.len(),
            bytes@.len() == wanted@.len(),
            lowered == Seq::new(bytes@.len(), |i: int| lower_byte(bytes@[i])),
            wanted@ == encode_utf8("torrent"@),
            forall|j: int| 0 <= j < i ==> lowered[j] == wanted@[j],
        decreases bytes@.len() - i,
    {
        let b: u8 = bytes[i];
        let lower: u8 = if 65 <= b && b <= 90 {
            b + 32
        } else {
            b
        };
        if lower != wanted[i] {
            assert(lowered[i as int] != wanted@[i as int]);
            return false;
        }
        i = i + 1;
    }
    assert(lowered =~= wanted@);
    true
}

/// Which entries are offered.
pub fn matches_mode(path: &PathBuf, is_dir: bool, is_file: bool, mode: PathCompletionMode) -> (res:
    bool)
    ensures
        res == mode_admits(path_bytes(*path), is_dir, is_file, mode),
{
    if is_dir {
        return true;
    }
    if !is_file {
        return false;
    }
    match mode {
        PathCompletionMode::TorrentFile => match extension(path) {
            Some(found) => is_torrent_spelling(&found),
            None => false,
        },
        PathCompletionMode::Directory => false,
    }
}

/// Whether an entry is offered to complete what `lookup` was made of.
pub open spec fn is_offered(
    entry: DirEntry,
    lookup: LookupModel,
    mode: PathCompletionMode,
) -> bool {
    &&& mode_admits(path_bytes(entry.path), entry.is_dir, entry.is_file, mode)
    &&& entry.name is Some
    &&& lookup.entry_prefix.is_prefix_of(entry.name->0@)
}

/// What an entry completes the typed text to: the text that leads to the directory, the name of
/// the entry, and a slash behind that of a directory.
pub open spec fn candidate_for(entry: DirEntry, lookup: LookupModel) -> CandidateModel {
    let path = lookup.raw_dir_prefix + entry.name->0@;
    CandidateModel {
        replacement: if entry.is_dir {
            path.push('/')
        } else {
            path
        },
        is_dir: entry.is_dir,
    }
}

/// The candidates that entries give, in the order of the entries.
pub open spec fn offered(
    entries: Seq<DirEntry>,
    lookup: LookupModel,
    mode: PathCompletionMode,
) -> Seq<CandidateModel>
    decreases entries.len(),
{
    if entries.len() == 0 {
        Seq::empty()
    } else {
        let before = offered(entries.drop_last(), lookup, mode);
        if is_offered(entries.last(), lookup, mode) {
            before.push(candidate_for(entries.last(), lookup))
        } else {
            before
        }
    }
}

/// What came of typing, and where its completions are looked for.
#[derive(Debug)]
pub struct CompletionQuery {
    pub seed_input: String,
    pub lookup: Lookup,
}

/// Where to look for completions of what is typed: white space at its ends does not count.
pub fn completion_query(input: &str, env: &UserEnvironment) -> (res: Result<
    CompletionQuery,
    PathError,
>)
    ensures
        match res {
            Ok(query) => {
                &&& query.seed_input@ == trimmed(input@)
                &&& lookup_for(trimmed(input@), *env) == Ok::<LookupModel, PathError>(
                    query.lookup@,
                )
            },
            Err(error) => lookup_for(trimmed(input@), *env) == Err::<LookupModel, PathError>(error),
        },
{
    let seed_input = input.trim().to_owned();
    match Lookup::from_input(seed_input.as_str(), env) {
        Ok(lookup) => Ok(CompletionQuery { seed_input, lookup }),
        Err(error) => Err(error),
    }
}

// ---------------------------------------------------------------------------------------------
// The order of candidates
// ---------------------------------------------------------------------------------------------

/// What candidates are sorted by.
pub struct CandidateRank {
    pub is_dir: bool,
    pub folded: Seq<char>,
}

/// Directories stand in front of files; among either, the text decides, its case aside.
pub open spec fn candidate_rank(candidate: CandidateModel) -> CandidateRank {
    CandidateRank { is_dir: candidate.is_dir, folded: lowercased(candidate.replacement) }
}

/// The ranks of candidates.
pub open spec fn candidate_ranks(candidates: Seq<CandidateModel>) -> Seq<CandidateRank> {
    Seq::new(candidates.len(), |i: int| candidate_rank(candidates[i]))
}

impl Rank for CandidateRank {
    open spec fn le(self, other: CandidateRank) -> bool {
        if self.is_dir == other.is_dir {
            text_le(self.folded, other.folded)
        } else {
            self.is_dir
        }
    }

    proof fn le_total(a: CandidateRank, b: CandidateRank) {
        lemma_text_le_total(a.folded, b.folded);
    }

    proof fn le_transitive(a: CandidateRank, b: CandidateRank, c: CandidateRank) {
        if a.is_dir == b.is_dir && b.is_dir == c.is_dir {
            lemma_text_le_transitive(a.folded, b.folded, c.folded);
        }
    }
}

/// The key that a candidate is sorted by.
struct CandidateKey {
    is_dir: bool,
    folded: Vec<char>,
}

impl SortKey for CandidateKey {
    type Rank = CandidateRank;

    closed spec fn rank(self) -> CandidateRank {
        CandidateRank { is_dir: self.is_dir, folded: self.folded@ }
    }

    fn is_le(&self, other: &CandidateKey) -> (res: bool) {
        if self.is_dir == other.is_dir {
            is_text_le(&self.folded, &other.folded)
        } else {
            self.is_dir
        }
    }
}

/// Candidates in their order: directories in front, each group by its text with case aside.
fn sort_candidates(candidates: &Vec<CompletionCandidate>) -> (sorted: Vec<CompletionCandidate>)
    ensures
        is_stable_sort(
            candidate_models(candidates@),
            candidate_ranks(candidate_models(candidates@)),
            candidate_models(sorted@),
        ),
{
    let mut keys: Vec<CandidateKey> = Vec::new();
    let mut i: usize = 0;
    while i < candidates.len()
        invariant
            i <= candidates@.len(),
            keys@.len() == i,
            forall|j: int|
                0 <= j < i ==> (#[trigger] keys@[j]).rank() == candidate_rank(candidates@[j]@),
        decreases candidates@.len() - i,
    {
        let folded = candidates[i].replacement.as_str().to_lowercase();
        keys.push(CandidateKey { is_dir: candidates[i].is_dir, folded: chars_of(folded.as_str()) });
        i = i + 1;
    }
    assert(ranks(keys@) =~= candidate_ranks(candidate_models(candidates@)));
    let order = stable_order(&keys);
    let mut sorted: Vec<CompletionCandidate> = Vec::new();
    let mut n: usize = 0;
    while n < order.len()
        invariant
            n <= order@.len(),
            order@.len() == candidates@.len(),
            forall|j: int| 0 <= j < order@.len() ==> 0 <= #[trigger] order@[j] < candidates@.len(),
            sorted@.len() == n,
            forall|j: int| 0 <= j < n ==> #[trigger] sorted@[j] == candidates@[order@[j] as int],
        decreases order@.len() - n,
    {
        sorted.push(candidates[order[n]].clone());
        n = n + 1;
    }
    assert(candidate_models(sorted@) =~= picked(candidate_models(candidates@), order@));
    sorted
}

// ---------------------------------------------------------------------------------------------
// Collecting
// ---------------------------------------------------------------------------------------------

/// Whether a directory that could not be read is taken for one without entries.
pub open spec fn is_tolerated(failure: ReadFailure) -> bool {
    failure != ReadFailure::Other
}

/// The candidates that entries give, in the order of the entries.
fn offer(entries: &Vec<DirEntry>, lookup: &Lookup, mode: PathCompletionMode) -> (candidates: Vec<
    CompletionCandidate,
>)
    ensures
        candidate_models(candidates@) == offered(entries@, lookup@, mode),
{
    let mut candidates: Vec<CompletionCandidate> = Vec::new();
    let mut i: usize = 0;
    assert(candidate_models(candidates@) =~= offered(entries@.take(0), lookup@, mode));
    while i < entries.len()
        invariant
            i <= entries@.len(),
            candidate_models(candidates@) == offered(entries@.take(i as int), lookup@, mode),
        decreases entries@.len() - i,
    {
        let entry = &entries[i];
        let ghost before = candidates@;
        assert(entries@.take(i + 1).drop_last() =~= entries@.take(i as int));
        i = i + 1;
        if matches_mode(&entry.path, entry.is_dir, entry.is_file, mode) {
            if let Some(name) = &entry.name {
                if begins_with(name.as_str(), lookup.entry_prefix.as_str()) {
                    let mut replacement = lookup.raw_dir_prefix.clone().concat(name.as_str());
                    if entry.is_dir {
                        replacement.push('/');
                    }
                    candidates.push(CompletionCandidate { replacement, is_dir: entry.is_dir });
                    assert(candidate_models(candidates@) =~= candidate_models(before).push(
                        candidate_for(*entry, lookup@),
                    ));
                }
            }
        }
    }
    assert(entries@.take(i as int) =~= entries@);
    candidates
}

/// The candidates that the listing of the looked-up directory gives.
pub fn collect_candidates(
    query: CompletionQuery,
    mode: PathCompletionMode,
    listing: &Listing,
) -> (res: Result<CompletionSet, CompletionError>)
    ensures
        match *listing {
            Listing::NotADirectory => {
                &&& res is Ok
                &&& res->Ok_0.seed_input == query.seed_input
                &&& res->Ok_0.candidates@.len() == 0
            },
            Listing::Failed { failure, detail } => if is_tolerated(failure) {
                &&& res is Ok
                &&& res->Ok_0.seed_input == query.seed_input
                &&& res->Ok_0.candidates@.len() == 0
            } else {
                res == Err::<CompletionSet, CompletionError>(
                    CompletionError::Unreadable { dir: query.lookup.search_dir, detail },
                )
            },
            Listing::Entries(entries) => {
                &&& res is Ok
                &&& res->Ok_0.seed_input == query.seed_input
                &&& is_stable_sort(
                    offered(entries@, query.lookup@, mode),
                    candidate_ranks(offered(entries@, query.lookup@, mode)),
                    candidate_models(res->Ok_0.candidates@),
                )
            },
        },
{
    match listing {
        Listing::NotADirectory => Ok(
            CompletionSet { seed_input: query.seed_input, candidates: Vec::new() },
        ),
        Listing::Failed { failure, detail } => match failure {
            ReadFailure::NotFound | ReadFailure::PermissionDenied | ReadFailure::InvalidInput => Ok(
                CompletionSet { seed_input: query.seed_input, candidates: Vec::new() },
            ),
            ReadFailure::Other => Err(
                CompletionError::Unreadable {
                    dir: query.lookup.search_dir,
                    detail: detail.clone(),
                },
            ),
        },
        Listing::Entries(entries) => {
            let candidates = offer(entries, &query.lookup, mode);
            Ok(
                CompletionSet {
                    seed_input: query.seed_input,
                    candidates: sort_candidates(&candidates),
                },
            )
        },
    }
}

// ---------------------------------------------------------------------------------------------
// The common prefix
// ---------------------------------------------------------------------------------------------

/// How many characters two texts share from their start.
pub open spec fn shared_length(a: Seq<char>, b: Seq<char>) -> nat
    decreases a.len(),
{
    if a.len() > 0 && b.len() > 0 && a[0] == b[0] {
        1 + shared_length(a.drop_first(), b.drop_first())
    } else {
        0
    }
}

/// The characters that two texts share from their start.
pub open spec fn shared(a: Seq<char>, b: Seq<char>) -> Seq<char> {
    a.take(shared_length(a, b) as int)
}

/// The characters that two texts share from their start.
pub fn shared_prefix(lhs: &str, rhs: &str) -> (prefix: String)
    ensures
        prefix@ == shared(lhs@, rhs@),
{
    let a = chars_of(lhs);
    let b = chars_of(rhs);
    let mut i: usize = 0;
    assert(a@.skip(0) =~= a@);
    assert(b@.skip(0) =~= b@);
    while i < a.len() && i < b.len() && a[i] == b[i]
        invariant
            i <= a@.len(),
            i <= b@.len(),
            shared_length(a@, b@) == i + shared_length(a@.skip(i as int), b@.skip(i as int)),
        decreases a@.len() - i,
    {
        assert(a@.skip(i as int).drop_first() =~= a@.skip(i + 1));
        assert(b@.skip(i as int).drop_first() =~= b@.skip(i + 1));
        i = i + 1;
    }
    let prefix = text_of(&a, 0, i);
    assert(prefix@ =~= a@.take(i as int));
    prefix
}

/// The characters that the texts of all candidates share from their start.
pub open spec fn shared_by_all(candidates: Seq<CandidateModel>) -> Seq<char>
    decreases candidates.len(),
{
    if candidates.len() == 0 {
        Seq::empty()
    } else if candidates.len() == 1 {
        candidates[0].replacement
    } else {
        shared(shared_by_all(candidates.drop_last()), candidates.last().replacement)
    }
}

impl CompletionSet {
    /// What all candidates share from their start, where there are candidates and it is longer, in
    /// bytes of UTF-8, than what is typed.
    pub fn common_prefix(&self) -> (res: Option<String>)
        ensures
            match res {
                Some(prefix) => {
                    &&& self.candidates@.len() > 0
                    &&& prefix@ == shared_by_all(candidate_models(self.candidates@))
                    &&& encode_utf8(prefix@).len() > encode_utf8(self.seed_input@).len()
                },
                None => self.candidates@.len() == 0 || encode_utf8(
                    shared_by_all(candidate_models(self.candidates@)),
                ).len() <= encode_utf8(self.seed_input@).len(),
            },
    {
        if self.candidates.len() == 0 {
            return None;
        }
        let ghost models = candidate_models(self.candidates@);
        let mut prefix = self.candidates[0].replacement.clone();
        let mut i: usize = 1;
        assert(models.take(1)[0] == models[0]);
        while i < self.candidates.len()
            invariant
                1 <= i <= self.candidates@.len(),
                models == candidate_models(self.candidates@),
                prefix@ == shared_by_all(models.take(i as int)),
            decreases self.candidates@.len() - i,
        {
            prefix = shared_prefix(prefix.as_str(), self.candidates[i].replacement.as_str());
            assert(models.take(i + 1).drop_last() =~= models.take(i as int));
            i = i + 1;
        }
        assert(models.take(i as int) =~= models);
        if byte_length(prefix.as_str()) > byte_length(self.seed_input.as_str()) {
            Some(prefix)
        } else {
            None
        }
    }
}

} // verus!
