//! The library search, as a state machine.
//!
//! The search needs four things from its surroundings: the value of an
//! environment variable, the output of the helper query tool, the
//! directories matching a backup glob pattern, and the first bytes of a
//! candidate file.  The machine asks for them one at a time through
//! `SearchStep` requests and is answered through `SearchEvent`s; every
//! decision in between — the order of the sources, probing a `lib`
//! directory's sibling on Windows, rejecting a candidate whose header does
//! not fit and carrying on, and the final failure report — is made here,
//! against the functional model `step_model`.
//!
//! The search order: the override environment variable's directory first,
//! then the `bin` and `lib` directories under the helper tool's reported
//! prefix, then the platform's backup directory patterns.  The first
//! candidate that passes validation wins.

use vstd::prelude::*;
use crate::platform::{backup_case_insensitive, spec_backup_case_insensitive, Platform};
use crate::paths::{expand_directory, expand_directory_spec, join_path, join_path_spec};
use crate::text::{chars_to_string, find_first, find_sub, str_chars, subvec};
use crate::validate::{
    check_header, elf_magic_ok, fault_message, header_ok, spec_validation_required,
    validation_required, LibraryKind, PointerWidth, ValidationFault,
};

verus! {

/// Which source the search falls back to once the current directory queue
/// is exhausted.
#[derive(Clone, Copy, Debug, PartialEq, Eq, Structural)]
pub enum Resume {
    /// Ask the helper tool next.
    HelperNext,
    /// Move on through the backup patterns.
    PatternsNext,
}

/// What the machine is waiting for.
#[derive(Clone, Copy, Debug, PartialEq, Eq, Structural)]
pub enum Phase {
    /// The override environment variable's value.
    AwaitEnv,
    /// The helper tool's output.
    AwaitHelper,
    /// The expansion of a backup directory pattern.
    AwaitDirs,
    /// The best candidate file in a directory.
    AwaitCandidate,
    /// The first bytes of a candidate file.
    AwaitHeader,
    /// Nothing: the search ended.
    Finished,
}

/// A request to the surroundings.  A fresh machine asks nothing yet: the
/// driver opens the exchange by answering with `Env`, the value of the
/// machine's override environment variable.
pub enum SearchStep {
    /// Run the helper tool and answer with `Helper` (its raw standard
    /// output, or nothing if it could not be run).
    NeedHelper,
    /// Expand this directory glob pattern (the flag asks for
    /// case-insensitive matching) and answer with `Dirs`, keeping only
    /// directories.
    NeedDirs(String, bool),
    /// Probe this directory for the searched files and answer with
    /// `Candidate` (the best match, as `locate::contains` picks it).
    NeedCandidate(String),
    /// Read the first five bytes of this file and answer with `Header`.
    NeedHeader(String),
    /// The search succeeded with this validated path.
    Found(String),
    /// The search failed; the message lists every file looked for, the
    /// override variable to set, and every skipped candidate.
    Failed(String),
}

/// An answer from the surroundings.
pub enum SearchEvent {
    /// The environment variable's value, if set.
    Env(Option<String>),
    /// The helper tool's standard output, if it ran.
    Helper(Option<String>),
    /// The directories a backup pattern expanded to, in order.
    Dirs(Vec<String>),
    /// The best candidate file in the probed directory, if any.
    Candidate(Option<String>),
    /// The candidate's first bytes, or the text of the error reading them.
    Header(Result<Vec<u8>, String>),
}

/// The ghost image of a `SearchStep`.
#[verifier::ext_equal]
pub enum StepView {
    /// See `SearchStep::NeedHelper`.
    NeedHelperV,
    /// See `SearchStep::NeedDirs`.
    NeedDirsV(Seq<char>, bool),
    /// See `SearchStep::NeedCandidate`.
    NeedCandidateV(Seq<char>),
    /// See `SearchStep::NeedHeader`.
    NeedHeaderV(Seq<char>),
    /// See `SearchStep::Found`.
    FoundV(Seq<char>),
    /// See `SearchStep::Failed`.
    FailedV(Seq<char>),
}

/// The ghost image of a `SearchEvent`.
#[verifier::ext_equal]
pub enum EventView {
    /// See `SearchEvent::Env`.
    EnvV(Option<Seq<char>>),
    /// See `SearchEvent::Helper`.
    HelperV(Option<Seq<char>>),
    /// See `SearchEvent::Dirs`.
    DirsV(Seq<Seq<char>>),
    /// See `SearchEvent::Candidate`.
    CandidateV(Option<Seq<char>>),
    /// See `SearchEvent::Header`.
    HeaderV(Result<Seq<u8>, Seq<char>>),
}

impl View for SearchStep {
    type V = StepView;

    open spec fn view(&self) -> StepView {
        match self {
            SearchStep::NeedHelper => StepView::NeedHelperV,
            SearchStep::NeedDirs(s, ci) => StepView::NeedDirsV(s@, *ci),
            SearchStep::NeedCandidate(s) => StepView::NeedCandidateV(s@),
            SearchStep::NeedHeader(s) => StepView::NeedHeaderV(s@),
            SearchStep::Found(s) => StepView::FoundV(s@),
            SearchStep::Failed(s) => StepView::FailedV(s@),
        }
    }
}

impl View for SearchEvent {
    type V = EventView;

    open spec fn view(&self) -> EventView {
        match self {
            SearchEvent::Env(v) => EventView::EnvV(match v {
                Some(s) => Some(s@),
                None => None,
            }),
            SearchEvent::Helper(v) => EventView::HelperV(match v {
                Some(s) => Some(s@),
                None => None,
            }),
            SearchEvent::Dirs(v) => EventView::DirsV(Seq::new(v@.len(), |i: int| v@[i]@)),
            SearchEvent::Candidate(v) => EventView::CandidateV(match v {
                Some(s) => Some(s@),
                None => None,
            }),
            SearchEvent::Header(v) => EventView::HeaderV(match v {
                Ok(h) => Ok(h@),
                Err(m) => Err(m@),
            }),
        }
    }
}

/// The views of a list of strings.
pub open spec fn seq_views(s: Seq<String>) -> Seq<Seq<char>> {
    Seq::new(s.len(), |i: int| s[i]@)
}

/// The ghost image of a `Finder`.
#[verifier::ext_equal]
pub struct FinderView {
    /// Whether a dynamic image or a static archive is searched for.
    pub kind: LibraryKind,
    /// The platform searched on.
    pub platform: Platform,
    /// The process's pointer width, for header validation.
    pub width: PointerWidth,
    /// The filename patterns searched for.
    pub files: Seq<Seq<char>>,
    /// The override environment variable's name.
    pub env_name: Seq<char>,
    /// What the machine is waiting for.
    pub phase: Phase,
    /// The source to fall back to after the queued directories.
    pub after_dirs: Resume,
    /// The directories still to probe in the current source.
    pub dirs: Seq<Seq<char>>,
    /// The backup patterns still to expand.
    pub pats: Seq<Seq<char>>,
    /// The candidate awaiting its header check.
    pub pending: Option<Seq<char>>,
    /// Every candidate rejected so far, with its reason.
    pub skipped: Seq<Seq<char>>,
}

impl FinderView {
    /// The machine waits for a header exactly while a candidate is
    /// pending.
    pub open spec fn inv(self) -> bool {
        self.pending is Some <==> self.phase is AwaitHeader
    }
}

/// Which event answers which phase.
pub open spec fn event_matches(phase: Phase, e: EventView) -> bool {
    match phase {
        Phase::AwaitEnv => e is EnvV,
        Phase::AwaitHelper => e is HelperV,
        Phase::AwaitDirs => e is DirsV,
        Phase::AwaitCandidate => e is CandidateV,
        Phase::AwaitHeader => e is HeaderV,
        Phase::Finished => false,
    }
}

/// A skip entry: the candidate and the reason it was rejected.
pub open spec fn skip_entry_spec(path: Seq<char>, reason: Seq<char>) -> Seq<char> {
    "("@ + path + ": "@ + reason + ")"@
}

/// The searched filenames, quoted and comma-separated.
pub open spec fn quoted_list(files: Seq<Seq<char>>) -> Seq<char>
    decreases files.len(),
{
    if files.len() == 0 {
        Seq::<char>::empty()
    } else if files.len() == 1 {
        seq!['\''] + files[0] + seq!['\'']
    } else {
        seq!['\''] + files[0] + seq!['\''] + ", "@ + quoted_list(files.skip(1))
    }
}

/// The skip entries, comma-separated.
pub open spec fn comma_list(items: Seq<Seq<char>>) -> Seq<char>
    decreases items.len(),
{
    if items.len() == 0 {
        Seq::<char>::empty()
    } else if items.len() == 1 {
        items[0]
    } else {
        items[0] + ", "@ + comma_list(items.skip(1))
    }
}

/// The failure report: every file looked for, the variable to set, and
/// every skipped candidate with its reason.
pub open spec fn failure_message_spec(
    files: Seq<Seq<char>>,
    env_name: Seq<char>,
    skipped: Seq<Seq<char>>,
) -> Seq<char> {
    "couldn't find any of ["@ + quoted_list(files) + "], set the "@ + env_name
        + " environment variable to a path where one of these files can be found (skipped: ["@
        + comma_list(skipped) + "])"@
}

/// The directories a list of globbed paths expands to, each with its
/// Windows sibling where one applies.
pub open spec fn expand_all_spec(list: Seq<Seq<char>>, p: Platform) -> Seq<Seq<char>>
    decreases list.len(),
{
    if list.len() == 0 {
        Seq::<Seq<char>>::empty()
    } else {
        expand_directory_spec(list[0], p) + expand_all_spec(list.skip(1), p)
    }
}

/// The first line of a helper tool's output: up to the first newline,
/// without a carriage return left by a Windows line ending.
pub open spec fn first_line_spec(s: Seq<char>) -> Seq<char> {
    let cut = match find_first(s, seq!['\n']) {
        Some(i) => s.take(i),
        None => s,
    };
    if cut.len() > 0 && cut.last() == '\r' {
        cut.drop_last()
    } else {
        cut
    }
}

/// The directories derived from the helper tool's reported prefix: its
/// `bin` and `lib` subdirectories, in that order.
pub open spec fn helper_dirs_spec(prefix: Seq<char>, p: Platform) -> Seq<Seq<char>> {
    expand_directory_spec(join_path_spec(prefix, "bin"@, p), p) + expand_directory_spec(
        join_path_spec(prefix, "lib"@, p),
        p,
    )
}

/// The reason a header was rejected with, as `check_header` words it.
pub open spec fn fault_text_spec(h: Seq<u8>, w: PointerWidth) -> Seq<char> {
    if !elf_magic_ok(h) {
        "invalid ELF header"@
    } else if w is W32 {
        "invalid ELF class (64-bit)"@
    } else {
        "invalid ELF class (32-bit)"@
    }
}

/// Moving on: the next queued directory; else the helper, if it has not
/// been asked; else the next backup pattern; else failure, reported with
/// the full skip list.
pub open spec fn advance_model(m: FinderView) -> (FinderView, StepView) {
    if m.dirs.len() > 0 {
        (
            FinderView { phase: Phase::AwaitCandidate, dirs: m.dirs.skip(1), ..m },
            StepView::NeedCandidateV(m.dirs[0]),
        )
    } else if m.after_dirs is HelperNext {
        (FinderView { phase: Phase::AwaitHelper, ..m }, StepView::NeedHelperV)
    } else if m.pats.len() > 0 {
        (
            FinderView { phase: Phase::AwaitDirs, pats: m.pats.skip(1), ..m },
            StepView::NeedDirsV(m.pats[0], spec_backup_case_insensitive(m.platform)),
        )
    } else {
        let msg = failure_message_spec(m.files, m.env_name, m.skipped);
        (FinderView { phase: Phase::Finished, ..m }, StepView::FailedV(msg))
    }
}

/// One transition of the search: what the machine does with each answer.
pub open spec fn step_model(m: FinderView, e: EventView) -> (FinderView, StepView) {
    match e {
        EventView::EnvV(v) => {
            let dirs = match v {
                Some(d) => expand_directory_spec(d, m.platform),
                None => Seq::<Seq<char>>::empty(),
            };
            advance_model(FinderView { dirs, ..m })
        },
        EventView::HelperV(v) => {
            let dirs = match v {
                Some(out) => if out.len() > 0 {
                    helper_dirs_spec(first_line_spec(out), m.platform)
                } else {
                    Seq::<Seq<char>>::empty()
                },
                None => Seq::<Seq<char>>::empty(),
            };
            advance_model(FinderView { dirs, after_dirs: Resume::PatternsNext, ..m })
        },
        EventView::DirsV(list) => advance_model(
            FinderView { dirs: expand_all_spec(list, m.platform), ..m },
        ),
        EventView::CandidateV(v) => match v {
            Some(f) => if spec_validation_required(m.kind, m.platform) {
                (
                    FinderView { phase: Phase::AwaitHeader, pending: Some(f), ..m },
                    StepView::NeedHeaderV(f),
                )
            } else {
                (FinderView { phase: Phase::Finished, ..m }, StepView::FoundV(f))
            },
            None => advance_model(m),
        },
        EventView::HeaderV(res) => {
            let f = m.pending->Some_0;
            let m2 = FinderView { pending: None, phase: Phase::AwaitCandidate, ..m };
            match res {
                Ok(h) => if header_ok(h, m.width) {
                    (FinderView { phase: Phase::Finished, ..m2 }, StepView::FoundV(f))
                } else {
                    advance_model(
                        FinderView {
                            skipped: m.skipped.push(
                                skip_entry_spec(f, fault_text_spec(h, m.width)),
                            ),
                            ..m2
                        },
                    )
                },
                Err(msg) => advance_model(
                    FinderView { skipped: m.skipped.push(skip_entry_spec(f, msg)), ..m2 },
                ),
            }
        },
    }
}

/// The search state machine.
pub struct Finder {
    kind: LibraryKind,
    platform: Platform,
    width: PointerWidth,
    files: Vec<String>,
    env_name: String,
    phase: Phase,
    after_dirs: Resume,
    dirs: Vec<String>,
    pats: Vec<String>,
    pending: Option<String>,
    skipped: Vec<String>,
}

impl View for Finder {
    type V = FinderView;

    closed spec fn view(&self) -> FinderView {
        FinderView {
            kind: self.kind,
            platform: self.platform,
            width: self.width,
            files: seq_views(self.files@),
            env_name: self.env_name@,
            phase: self.phase,
            after_dirs: self.after_dirs,
            dirs: seq_views(self.dirs@),
            pats: seq_views(self.pats@),
            pending: match self.pending {
                Some(ref s) => Some(s@),
                None => None,
            },
            skipped: seq_views(self.skipped@),
        }
    }
}

impl Finder {
    /// A fresh search for `files` under the override variable `env_name`:
    /// the machine starts by asking for that variable, and holds the
    /// platform's backup patterns in reserve.
    pub fn new(
        kind: LibraryKind,
        platform: Platform,
        width: PointerWidth,
        files: Vec<String>,
        env_name: String,
        pats: Vec<String>,
    ) -> (r: Finder)
        ensures
            r@.inv(),
            r@.kind == kind,
            r@.platform == platform,
            r@.width == width,
            r@.files == seq_views(files@),
            r@.env_name == env_name@,
            r@.phase == Phase::AwaitEnv,
            r@.after_dirs == Resume::HelperNext,
            r@.dirs == Seq::<Seq<char>>::empty(),
            r@.pats == seq_views(pats@),
            r@.pending is None,
            r@.skipped == Seq::<Seq<char>>::empty(),
    {
        let r = Finder {
            kind,
            platform,
            width,
            files,
            env_name,
            phase: Phase::AwaitEnv,
            after_dirs: Resume::HelperNext,
            dirs: Vec::new(),
            pats,
            pending: None,
            skipped: Vec::new(),
        };
        proof {
            assert(seq_views(r.dirs@) =~= Seq::<Seq<char>>::empty());
            assert(seq_views(r.skipped@) =~= Seq::<Seq<char>>::empty());
        }
        r
    }

    /// The override environment variable this search honours.
    pub fn env_name(&self) -> (r: &String)
        ensures
            r@ == self@.env_name,
    {
        &self.env_name
    }

    /// The filename patterns searched for.
    pub fn files(&self) -> (r: &Vec<String>)
        ensures
            seq_views(r@) == self@.files,
    {
        &self.files
    }

    /// What the machine is waiting for.
    pub fn phase(&self) -> (r: Phase)
        ensures
            r == self@.phase,
    {
        self.phase
    }

    /// Takes the next queued directory, or falls back to the next source.
    fn advance(&mut self) -> (r: SearchStep)
        ensures
            (final(self)@, r@) == advance_model(old(self)@),
    {
        if self.dirs.len() > 0 {
            let d = self.dirs.remove(0);
            self.phase = Phase::AwaitCandidate;
            proof {
                assert(seq_views(final(self).dirs@) =~= seq_views(old(self).dirs@).skip(1));
                assert(final(self)@ =~~= advance_model(old(self)@).0);
            }
            SearchStep::NeedCandidate(d)
        } else if matches!(self.after_dirs, Resume::HelperNext) {
            self.phase = Phase::AwaitHelper;
            proof {
                assert(final(self)@ =~~= advance_model(old(self)@).0);
            }
            SearchStep::NeedHelper
        } else if self.pats.len() > 0 {
            let pat = self.pats.remove(0);
            self.phase = Phase::AwaitDirs;
            let ci = backup_case_insensitive(self.platform);
            proof {
                assert(seq_views(final(self).pats@) =~= seq_views(old(self).pats@).skip(1));
                assert(final(self)@ =~~= advance_model(old(self)@).0);
            }
            SearchStep::NeedDirs(pat, ci)
        } else {
            self.phase = Phase::Finished;
            let msg = self.failure_message();
            proof {
                assert(final(self)@ =~~= advance_model(old(self)@).0);
            }
            SearchStep::Failed(msg)
        }
    }

    /// The failure report for the current skip list.
    fn failure_message(&self) -> (r: String)
        ensures
            r@ == failure_message_spec(self@.files, self@.env_name, self@.skipped),
    {
        let mut out: Vec<char> = str_chars("couldn't find any of [");
        let quoted = quoted_list_chars(&self.files);
        out = concat_chars(out, quoted);
        out = append_str(out, "], set the ");
        out = append_str(out, self.env_name.as_str());
        out = append_str(
            out,
            " environment variable to a path where one of these files can be found (skipped: [",
        );
        let joined = comma_list_chars(&self.skipped);
        out = concat_chars(out, joined);
        out = append_str(out, "])");
        chars_to_string(&out)
    }

    /// One transition: answers the machine's last request and is handed
    /// the next one.  The behaviour is exactly `step_model` on the ghost
    /// images.
    pub fn step(&mut self, e: SearchEvent) -> (r: SearchStep)
        requires
            old(self)@.inv(),
            event_matches(old(self)@.phase, e@),
        ensures
            final(self)@.inv(),
            (final(self)@, r@) == step_model(old(self)@, e@),
    {
        match e {
            SearchEvent::Env(v) => {
                match v {
                    Some(d) => {
                        self.dirs = expand_directory(d.as_str(), self.platform);
                        proof {
                            assert(seq_views(self.dirs@) =~= expand_directory_spec(
                                d@,
                                old(self)@.platform,
                            ));
                        }
                    },
                    None => {
                        self.dirs = Vec::new();
                        proof {
                            assert(seq_views(self.dirs@) =~= Seq::<Seq<char>>::empty());
                        }
                    },
                }
                let r = self.advance();
                proof {
                    assert((final(self)@, r@) =~~= step_model(old(self)@, e@));
                }
                r
            },
            SearchEvent::Helper(v) => {
                match v {
                    Some(out) => {
                        if out.as_str().unicode_len() > 0 {
                            let line = first_line(out.as_str());
                            let bin = join_path(line.as_str(), "bin", self.platform);
                            let lib_dir = join_path(line.as_str(), "lib", self.platform);
                            let mut ds = expand_directory(bin.as_str(), self.platform);
                            let mut ds2 = expand_directory(lib_dir.as_str(), self.platform);
                            ds.append(&mut ds2);
                            self.dirs = ds;
                            proof {
                                assert(seq_views(self.dirs@) =~= helper_dirs_spec(
                                    first_line_spec(out@),
                                    old(self)@.platform,
                                ));
                            }
                        } else {
                            self.dirs = Vec::new();
                            proof {
                                assert(seq_views(self.dirs@) =~= Seq::<Seq<char>>::empty());
                            }
                        }
                    },
                    None => {
                        self.dirs = Vec::new();
                        proof {
                            assert(seq_views(self.dirs@) =~= Seq::<Seq<char>>::empty());
                        }
                    },
                }
                self.after_dirs = Resume::PatternsNext;
                let r = self.advance();
                proof {
                    assert((final(self)@, r@) =~~= step_model(old(self)@, e@));
                }
                r
            },
            SearchEvent::Dirs(list) => {
                self.dirs = expand_all(&list, self.platform);
                let r = self.advance();
                proof {
                    assert((final(self)@, r@) =~~= step_model(old(self)@, e@));
                }
                r
            },
            SearchEvent::Candidate(v) => match v {
                Some(f) => {
                    if validation_required(self.kind, self.platform) {
                        self.pending = Some(f.clone());
                        self.phase = Phase::AwaitHeader;
                        proof {
                            assert((final(self)@, SearchStep::NeedHeader(f)@) =~~= step_model(
                                old(self)@,
                                e@,
                            ));
                        }
                        SearchStep::NeedHeader(f)
                    } else {
                        self.phase = Phase::Finished;
                        proof {
                            assert((final(self)@, SearchStep::Found(f)@) =~~= step_model(
                                old(self)@,
                                e@,
                            ));
                        }
                        SearchStep::Found(f)
                    }
                },
                None => {
                    let r = self.advance();
                    proof {
                        assert((final(self)@, r@) =~~= step_model(old(self)@, e@));
                    }
                    r
                },
            },
            SearchEvent::Header(res) => {
                let f = match self.pending.take() {
                    Some(f) => f,
                    None => vstd::pervasive::unreached(),
                };
                self.phase = Phase::AwaitCandidate;
                match res {
                    Ok(h) => {
                        match check_header(&h, self.width) {
                            Ok(()) => {
                                self.phase = Phase::Finished;
                                proof {
                                    assert((final(self)@, SearchStep::Found(f)@) =~~= step_model(
                                        old(self)@,
                                        e@,
                                    ));
                                }
                                SearchStep::Found(f)
                            },
                            Err(fault) => {
                                let reason = fault_message(fault);
                                proof {
                                    assert(reason@ == fault_text_spec(h@, old(self)@.width));
                                }
                                let entry = skip_entry(f.as_str(), reason.as_str());
                                self.skipped.push(entry);
                                proof {
                                    assert(seq_views(self.skipped@) =~= seq_views(
                                        old(self).skipped@,
                                    ).push(
                                        skip_entry_spec(f@, fault_text_spec(h@, old(self)@.width)),
                                    ));
                                }
                                let r = self.advance();
                                proof {
                                    assert((final(self)@, r@) =~~= step_model(old(self)@, e@));
                                }
                                r
                            },
                        }
                    },
                    Err(msg) => {
                        let entry = skip_entry(f.as_str(), msg.as_str());
                        self.skipped.push(entry);
                        proof {
                            assert(seq_views(self.skipped@) =~= seq_views(old(self).skipped@).push(
                                skip_entry_spec(f@, msg@),
                            ));
                        }
                        let r = self.advance();
                        proof {
                            assert((final(self)@, r@) =~~= step_model(old(self)@, e@));
                        }
                        r
                    },
                }
            },
        }
    }
}

/// The search for a shared `libclang` image: the platform's filename
/// patterns, the `LIBCLANG_PATH` override variable, and the platform's
/// backup directory patterns held in reserve.
pub fn shared_library_finder(p: Platform, w: PointerWidth) -> (r: Finder)
    ensures
        r@.inv(),
        r@.kind == LibraryKind::Dynamic,
        r@.platform == p,
        r@.width == w,
        r@.files == crate::locate::shared_library_files_spec(p),
        r@.env_name == "LIBCLANG_PATH"@,
        r@.phase == Phase::AwaitEnv,
        r@.after_dirs == Resume::HelperNext,
        r@.dirs == Seq::<Seq<char>>::empty(),
        r@.pats == crate::platform::spec_backup_patterns(p),
        r@.pending is None,
        r@.skipped == Seq::<Seq<char>>::empty(),
{
    let files = crate::locate::shared_library_files(p);
    let pats = crate::platform::backup_patterns(p);
    proof {
        assert(seq_views(files@) =~= crate::locate::shared_library_files_spec(p));
        assert(seq_views(pats@) =~= crate::platform::spec_backup_patterns(p));
    }
    Finder::new(LibraryKind::Dynamic, p, w, files, "LIBCLANG_PATH".to_owned(), pats)
}

/// Whether anything is left for the search to try.
pub open spec fn exhausted(m: FinderView) -> bool {
    m.dirs.len() == 0 && !(m.after_dirs is HelperNext) && m.pats.len() == 0
}

/// A step never forgets a skip entry: the old skip list is a prefix of
/// the new one.
pub proof fn lemma_skips_kept(m: FinderView, e: EventView)
    ensures
        m.skipped.is_prefix_of(step_model(m, e).0.skipped),
{
    assert(m.skipped.subrange(0, m.skipped.len() as int) =~= m.skipped);
    match e {
        EventView::HeaderV(res) => {
            let f = m.pending->Some_0;
            match res {
                Ok(h) => {
                    if !header_ok(h, m.width) {
                        let x = skip_entry_spec(f, fault_text_spec(h, m.width));
                        assert(m.skipped.push(x).subrange(0, m.skipped.len() as int)
                            =~= m.skipped);
                    }
                },
                Err(msg) => {
                    let x = skip_entry_spec(f, msg);
                    assert(m.skipped.push(x).subrange(0, m.skipped.len() as int) =~= m.skipped);
                },
            }
        },
        _ => {},
    }
}

/// A candidate whose header does not fit is rejected without ending the
/// search: the skip list grows by exactly that candidate with its reason,
/// the result is not success, and the search only fails here when
/// nothing at all was left to try.
pub proof fn lemma_rejection_continues(m: FinderView, h: Seq<u8>)
    requires
        m.inv(),
        m.phase is AwaitHeader,
        !header_ok(h, m.width),
    ensures
        !(step_model(m, EventView::HeaderV(Ok(h))).1 is FoundV),
        step_model(m, EventView::HeaderV(Ok(h))).0.skipped == m.skipped.push(
            skip_entry_spec(m.pending->Some_0, fault_text_spec(h, m.width)),
        ),
        step_model(m, EventView::HeaderV(Ok(h))).1 is FailedV ==> exhausted(m),
        !exhausted(m) ==> !(step_model(m, EventView::HeaderV(Ok(h))).0.phase is Finished),
{
}

/// The search succeeds only with a candidate that was accepted: either
/// validation was not required on this platform, or the candidate's
/// header was just checked and passed.
pub proof fn lemma_found_is_validated(m: FinderView, e: EventView)
    requires
        m.inv(),
        event_matches(m.phase, e),
    ensures
        step_model(m, e).1 matches StepView::FoundV(f) ==> {
            ||| (e == EventView::CandidateV(Some(f)) && !spec_validation_required(
                m.kind,
                m.platform,
            ))
            ||| (m.pending == Some(f) && exists|h: Seq<u8>|
                e == EventView::HeaderV(Result::<Seq<u8>, Seq<char>>::Ok(h)) && header_ok(
                    h,
                    m.width,
                ))
        },
{
    match e {
        EventView::HeaderV(res) => {
            if step_model(m, e).1 matches StepView::FoundV(f) {
                match res {
                    Ok(h) => {
                        assert(e == EventView::HeaderV(Result::<Seq<u8>, Seq<char>>::Ok(h))
                            && header_ok(h, m.width));
                    },
                    Err(_) => {},
                }
            }
        },
        _ => {},
    }
}

/// Appends a string's characters.
fn append_str(out: Vec<char>, s: &str) -> (r: Vec<char>)
    ensures
        r@ == out@ + s@,
{
    let extra = str_chars(s);
    concat_chars(out, extra)
}

/// Appends a character vector.
fn concat_chars(out: Vec<char>, extra: Vec<char>) -> (r: Vec<char>)
    ensures
        r@ == out@ + extra@,
{
    let mut out = out;
    let mut extra = extra;
    out.append(&mut extra);
    out
}

/// The quoted, comma-separated file list, from position `i` on.
fn quoted_list_from(files: &Vec<String>, i: usize) -> (r: Vec<char>)
    requires
        i <= files@.len(),
    ensures
        r@ == quoted_list(seq_views(files@).skip(i as int)),
    decreases files@.len() - i,
{
    let ghost tail = seq_views(files@).skip(i as int);
    if i == files.len() {
        proof {
            assert(tail.len() == 0);
        }
        Vec::new()
    } else {
        let mut out: Vec<char> = Vec::new();
        out.push('\'');
        out = append_str(out, files[i].as_str());
        out.push('\'');
        if i + 1 == files.len() {
            proof {
                assert(tail.len() == 1);
                assert(tail[0] == files@[i as int]@);
                assert(out@ =~= seq!['\''] + tail[0] + seq!['\'']);
            }
            out
        } else {
            out = append_str(out, ", ");
            let rest = quoted_list_from(files, i + 1);
            let r = concat_chars(out, rest);
            proof {
                assert(tail.skip(1) =~= seq_views(files@).skip(i + 1));
                assert(tail[0] == files@[i as int]@);
                assert(r@ =~= seq!['\''] + tail[0] + seq!['\''] + ", "@ + quoted_list(
                    tail.skip(1),
                ));
            }
            r
        }
    }
}

/// The quoted, comma-separated file list.
fn quoted_list_chars(files: &Vec<String>) -> (r: Vec<char>)
    ensures
        r@ == quoted_list(seq_views(files@)),
{
    let r = quoted_list_from(files, 0);
    proof {
        assert(seq_views(files@).skip(0) =~= seq_views(files@));
    }
    r
}

/// The comma-separated list, from position `i` on.
fn comma_list_from(items: &Vec<String>, i: usize) -> (r: Vec<char>)
    requires
        i <= items@.len(),
    ensures
        r@ == comma_list(seq_views(items@).skip(i as int)),
    decreases items@.len() - i,
{
    let ghost tail = seq_views(items@).skip(i as int);
    if i == items.len() {
        proof {
            assert(tail.len() == 0);
        }
        Vec::new()
    } else {
        let out: Vec<char> = str_chars(items[i].as_str());
        if i + 1 == items.len() {
            proof {
                assert(tail.len() == 1);
                assert(tail[0] == items@[i as int]@);
            }
            out
        } else {
            let out2 = append_str(out, ", ");
            let rest = comma_list_from(items, i + 1);
            let r = concat_chars(out2, rest);
            proof {
                assert(tail.skip(1) =~= seq_views(items@).skip(i + 1));
                assert(tail[0] == items@[i as int]@);
                assert(r@ =~= tail[0] + ", "@ + comma_list(tail.skip(1)));
            }
            r
        }
    }
}

/// The comma-separated skip list.
fn comma_list_chars(items: &Vec<String>) -> (r: Vec<char>)
    ensures
        r@ == comma_list(seq_views(items@)),
{
    let r = comma_list_from(items, 0);
    proof {
        assert(seq_views(items@).skip(0) =~= seq_views(items@));
    }
    r
}

/// A skip entry: the candidate and the reason it was rejected.
fn skip_entry(path: &str, reason: &str) -> (r: String)
    ensures
        r@ == skip_entry_spec(path@, reason@),
{
    let mut out: Vec<char> = str_chars("(");
    out = append_str(out, path);
    out = append_str(out, ": ");
    out = append_str(out, reason);
    out = append_str(out, ")");
    chars_to_string(&out)
}

/// The first line of a helper tool's output.
fn first_line(s: &str) -> (r: String)
    ensures
        r@ == first_line_spec(s@),
{
    let v = str_chars(s);
    let mut nl: Vec<char> = Vec::new();
    nl.push('\n');
    proof {
        assert(nl@ =~= seq!['\n']);
    }
    let cut_end = match find_sub(&v, &nl) {
        Some(i) => {
            proof {
                crate::text::lemma_find_first_is_match(v@, nl@);
            }
            i
        },
        None => v.len(),
    };
    let ghost cut = match find_first(s@, seq!['\n']) {
        Some(i) => s@.take(i),
        None => s@,
    };
    let end = if cut_end > 0 && v[cut_end - 1] == '\r' {
        cut_end - 1
    } else {
        cut_end
    };
    let out = subvec(&v, 0, end);
    proof {
        assert(v@.take(v@.len() as int) =~= v@);
        if cut.len() > 0 && cut.last() == '\r' {
            assert(out@ =~= cut.drop_last());
        } else {
            assert(out@ =~= cut);
        }
    }
    chars_to_string(&out)
}

/// The directories a list of globbed paths expands to, from `i` on.
fn expand_all_from(list: &Vec<String>, p: Platform, i: usize) -> (r: Vec<String>)
    requires
        i <= list@.len(),
    ensures
        seq_views(r@) == expand_all_spec(seq_views(list@).skip(i as int), p),
    decreases list@.len() - i,
{
    let ghost tail = seq_views(list@).skip(i as int);
    if i == list.len() {
        let r: Vec<String> = Vec::new();
        proof {
            assert(seq_views(r@) =~= expand_all_spec(tail, p));
        }
        r
    } else {
        let mut head = expand_directory(list[i].as_str(), p);
        let mut rest = expand_all_from(list, p, i + 1);
        head.append(&mut rest);
        proof {
            assert(tail[0] == list@[i as int]@);
            assert(tail.skip(1) =~= seq_views(list@).skip(i + 1));
            assert(seq_views(head@) =~= expand_directory_spec(tail[0], p) + expand_all_spec(
                tail.skip(1),
                p,
            ));
        }
        head
    }
}

/// The directories a list of globbed paths expands to, each with its
/// Windows sibling where one applies.
fn expand_all(list: &Vec<String>, p: Platform) -> (r: Vec<String>)
    ensures
        seq_views(r@) == expand_all_spec(seq_views(list@), p),
{
    let r = expand_all_from(list, p, 0);
    proof {
        assert(seq_views(list@).skip(0) =~= seq_views(list@));
    }
    r
}

} // verus!
