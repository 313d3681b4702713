//! AppArmor on the host: whether it is enabled, and which profiles are loaded.

use crate::path::{join, joined, split, split_text, texts};
use crate::text::{chars_of, is_same, is_white_space, slice_text, white_space};
use vstd::prelude::*;

verus! {

/// A profile and the mode it is loaded in.
#[derive(Debug, Clone, PartialEq)]
pub struct Profile {
    pub name: String,
    pub mode: ProfileMode,
}

/// The mode of a profile.
#[derive(Debug, Clone, PartialEq)]
pub enum ProfileMode {
    /// Violations are refused and logged.
    Enforce,
    /// Violations are permitted but logged.
    Complain,
    /// Violations cause the task to be killed.
    Kill,
    /// The task is not restricted.
    Unconfined,
    /// A mode that is not known here.
    Unknown(String),
}

impl ProfileMode {
    /// What the kernel writes for a mode.
    pub open spec fn name(&self) -> Seq<char> {
        match self {
            ProfileMode::Enforce => "enforce"@,
            ProfileMode::Complain => "complain"@,
            ProfileMode::Kill => "kill"@,
            ProfileMode::Unconfined => "unconfined"@,
            ProfileMode::Unknown(s) => s@,
        }
    }

    pub open spec fn is_known_name(name: Seq<char>) -> bool {
        name == "enforce"@ || name == "complain"@ || name == "kill"@ || name == "unconfined"@
    }

    /// Reads a mode; what is not known keeps its name.
    pub fn of(s: &str) -> (r: Self)
        ensures
            r.name() == s@,
            r is Unknown <==> !ProfileMode::is_known_name(s@),
    {
        if is_same(s, "enforce") {
            ProfileMode::Enforce
        } else if is_same(s, "complain") {
            ProfileMode::Complain
        } else if is_same(s, "kill") {
            ProfileMode::Kill
        } else if is_same(s, "unconfined") {
            ProfileMode::Unconfined
        } else {
            ProfileMode::Unknown(s.to_owned())
        }
    }
}

/// Why a read failed, as far as it matters.
#[derive(Debug, Clone, Copy, PartialEq, Eq, Structural)]
pub enum ReadError {
    NotFound,
    PermissionDenied,
    Other,
}

/// What has to be read next to tell whether AppArmor is enabled.
#[derive(Debug, Clone, Copy)]
pub enum EnabledStep {
    /// The parameter `enabled`.
    ReadEnabled,
    /// The parameter `available`.
    ReadAvailable,
    /// The mount point; `public` tells whether it decides anything.
    FindMountpoint { public: bool },
    Finish(Result<bool, ReadError>),
}

/// A parameter that is not there counts as false; another failure is one.
pub open spec fn parameter(read: Result<bool, ReadError>) -> Result<bool, ReadError> {
    match read {
        Err(ReadError::NotFound) => Ok(false),
        _ => read,
    }
}

pub open spec fn enabled_step(step: EnabledStep, read: Result<bool, ReadError>) -> EnabledStep {
    match step {
        EnabledStep::ReadEnabled => match parameter(read) {
            Ok(true) => EnabledStep::FindMountpoint { public: true },
            Ok(false) => EnabledStep::ReadAvailable,
            Err(e) => EnabledStep::Finish(Err(e)),
        },
        EnabledStep::ReadAvailable => match parameter(read) {
            Ok(true) => EnabledStep::FindMountpoint { public: false },
            Ok(false) => EnabledStep::Finish(Ok(false)),
            Err(e) => EnabledStep::Finish(Err(e)),
        },
        EnabledStep::FindMountpoint { public } => match read {
            Ok(found) => EnabledStep::Finish(Ok(public && found)),
            Err(e) => EnabledStep::Finish(Err(e)),
        },
        EnabledStep::Finish(_) => step,
    }
}

/// Whether the answer to `available` lets AppArmor count as there for private use.
pub fn is_private_enabled(available: Result<bool, ReadError>) -> (r: Result<bool, ReadError>)
    ensures
        r == parameter(available),
{
    match available {
        Err(ReadError::NotFound) => Ok(false),
        other => other,
    }
}

/// Takes the question one read further. The answer to `FindMountpoint` is whether there
/// is one.
pub fn enabled_next(step: EnabledStep, read: Result<bool, ReadError>) -> (r: EnabledStep)
    ensures
        r == enabled_step(step, read),
{
    match step {
        EnabledStep::ReadEnabled => match is_private_enabled(read) {
            Ok(true) => EnabledStep::FindMountpoint { public: true },
            Ok(false) => EnabledStep::ReadAvailable,
            Err(e) => EnabledStep::Finish(Err(e)),
        },
        EnabledStep::ReadAvailable => match is_private_enabled(read) {
            Ok(true) => EnabledStep::FindMountpoint { public: false },
            Ok(false) => EnabledStep::Finish(Ok(false)),
            Err(e) => EnabledStep::Finish(Err(e)),
        },
        EnabledStep::FindMountpoint { public } => match read {
            Ok(found) => EnabledStep::Finish(Ok(public && found)),
            Err(e) => EnabledStep::Finish(Err(e)),
        },
        EnabledStep::Finish(_) => step,
    }
}

/// What the host says of AppArmor.
#[derive(Debug, Clone, Copy)]
pub struct AppArmorState {
    pub enabled: Result<bool, ReadError>,
    pub available: Result<bool, ReadError>,
    /// Whether there is a mount point.
    pub mountpoint: Result<bool, ReadError>,
}

/// Enabled means: switched on and mounted. Where it is there for private use only, it is
/// not enabled. A failure counts only where the answer would have mattered, and so does
/// one to find the mount point where it is there for private use.
pub open spec fn is_enabled_spec(sys: AppArmorState) -> Result<bool, ReadError> {
    match parameter(sys.enabled) {
        Err(e) => Err(e),
        Ok(true) => sys.mountpoint,
        Ok(false) => match parameter(sys.available) {
            Err(e) => Err(e),
            Ok(false) => Ok(false),
            Ok(true) => match sys.mountpoint {
                Err(e) => Err(e),
                Ok(_) => Ok(false),
            },
        },
    }
}

/// Whether AppArmor is enabled, by what the host says of it.
pub fn is_enabled_internal(sys: &AppArmorState) -> (r: Result<bool, ReadError>)
    ensures
        r == is_enabled_spec(*sys),
{
    let mut step = enabled_next(EnabledStep::ReadEnabled, sys.enabled);
    if let EnabledStep::ReadAvailable = step {
        step = enabled_next(step, sys.available);
    }
    if let EnabledStep::FindMountpoint { .. } = step {
        step = enabled_next(step, sys.mountpoint);
    }
    match step {
        EnabledStep::Finish(r) => r,
        _ => Ok(false),
    }
}

/// The text without white space at its ends.
pub open spec fn trimmed(s: Seq<char>) -> Seq<char>
    decreases s.len(),
{
    if s.len() > 0 && white_space(s[0]) {
        trimmed(s.drop_first())
    } else if s.len() > 0 && white_space(s.last()) {
        trimmed(s.drop_last())
    } else {
        s
    }
}

/// Whether the content of a parameter file says yes.
pub fn is_yes(content: &str) -> (r: bool)
    ensures
        r == (trimmed(content@) == seq!['Y']),
{
    let chars = chars_of(content);
    let mut from: usize = 0;
    let mut to: usize = chars.len();
    assert(content@.subrange(0, to as int) =~= content@);
    while from < to && is_white_space(chars[from])
        invariant
            from <= to == chars@.len(),
            chars@ == content@,
            trimmed(content@) == trimmed(content@.subrange(from as int, to as int)),
        decreases to - from,
    {
        assert(content@.subrange(from as int, to as int).drop_first() =~= content@.subrange(
            from + 1,
            to as int,
        ));
        from += 1;
    }
    while from < to && is_white_space(chars[to - 1])
        invariant
            from <= to <= chars@.len(),
            chars@ == content@,
            from < to ==> !white_space(chars@[from as int]),
            trimmed(content@) == trimmed(content@.subrange(from as int, to as int)),
        decreases to - from,
    {
        assert(content@.subrange(from as int, to as int).drop_last() =~= content@.subrange(
            from as int,
            to - 1,
        ));
        to -= 1;
    }
    let ghost rest = content@.subrange(from as int, to as int);
    assert(trimmed(content@) == rest);
    let r = to - from == 1 && chars[from] == 'Y';
    proof {
        if r {
            assert(rest =~= seq!['Y']);
        } else if rest == seq!['Y'] {
            assert(rest.len() == 1);
            assert(rest[0] == chars@[from as int]);
        }
    }
    r
}

/// Where AppArmor's files may be: below each security file system, in the order in
/// which they are mounted. A mount is given as its type and its path.
pub open spec fn mountpoint_candidates(mounts: Seq<(String, String)>) -> Seq<Seq<char>>
    decreases mounts.len(),
{
    if mounts.len() == 0 {
        Seq::empty()
    } else {
        let before = mountpoint_candidates(mounts.drop_last());
        if mounts.last().0@ == "securityfs"@ {
            before.push(joined(mounts.last().1@, "apparmor"@))
        } else {
            before
        }
    }
}

pub fn find_mountpoint_candidates(mounts: &Vec<(String, String)>) -> (r: Vec<String>)
    ensures
        texts(r@) == mountpoint_candidates(mounts@),
{
    let mut out: Vec<String> = Vec::new();
    let mut i: usize = 0;
    assert(mounts@.take(0) =~= Seq::empty());
    assert(texts(out@) =~= Seq::empty());
    while i < mounts.len()
        invariant
            i <= mounts@.len(),
            texts(out@) == mountpoint_candidates(mounts@.take(i as int)),
        decreases mounts.len() - i,
    {
        let ghost upto = mounts@.take(i + 1);
        assert(upto.drop_last() =~= mounts@.take(i as int));
        let ghost before = texts(out@);
        if is_same(mounts[i].0.as_str(), "securityfs") {
            let path = join(mounts[i].1.as_str(), "apparmor");
            out.push(path);
            assert(texts(out@) =~= before.push(path@));
        }
        i += 1;
    }
    assert(mounts@.take(i as int) =~= mounts@);
    out
}

/// A line without the carriage return that ends it.
pub open spec fn without_cr(line: Seq<char>) -> Seq<char> {
    if line.len() > 0 && line.last() == '\r' {
        line.drop_last()
    } else {
        line
    }
}

/// The lines of a text: what stands between line feeds, and what follows the last one
/// if anything does. A carriage return before a line feed belongs to it.
pub open spec fn lines(s: Seq<char>) -> Seq<Seq<char>> {
    let pieces = split(s, '\n');
    let ended = Seq::new((pieces.len() - 1) as nat, |i: int| without_cr(pieces[i]));
    if pieces.last().len() > 0 {
        ended.push(pieces.last())
    } else {
        ended
    }
}

proof fn lemma_pieces_of(s: Seq<char>, start: int, i: int)
    ensures
        crate::path::split_from(s, '\n', start, i).len() >= 1,
    decreases s.len() - i,
{
    if i < s.len() && s[i] != '\n' {
        lemma_pieces_of(s, start, i + 1);
    }
}

fn lines_of(s: &str) -> (r: Vec<String>)
    ensures
        texts(r@) == lines(s@),
{
    let pieces = split_text(s, '\n');
    proof {
        lemma_pieces_of(s@, 0, 0);
    }
    let ghost all = texts(pieces@);
    let last: usize = pieces.len() - 1;
    let mut out: Vec<String> = Vec::new();
    let mut i: usize = 0;
    while i < last
        invariant
            i <= last == pieces@.len() - 1,
            all == texts(pieces@),
            texts(out@) == Seq::new(i as nat, |j: int| without_cr(all[j])),
        decreases last - i,
    {
        let chars = chars_of(pieces[i].as_str());
        let n: usize = chars.len();
        let ghost before = texts(out@);
        let line = if n > 0 && chars[n - 1] == '\r' {
            assert(chars@.subrange(0, n - 1) =~= chars@.drop_last());
            slice_text(&chars, 0, n - 1)
        } else {
            pieces[i].clone()
        };
        assert(line@ == without_cr(all[i as int]));
        out.push(line);
        assert(texts(out@) =~= before.push(line@));
        assert(texts(out@) =~= Seq::new((i + 1) as nat, |j: int| without_cr(all[j])));
        i += 1;
    }
    let ghost before = texts(out@);
    if !pieces[last].as_str().is_empty() {
        out.push(pieces[last].clone());
        assert(texts(out@) =~= before.push(all.last()));
    }
    out
}

/// Where the last ` (` stands in a line, or -1.
pub open spec fn mode_index(line: Seq<char>) -> int
    decreases line.len(),
{
    if line.len() < 2 {
        -1
    } else if line[line.len() - 2] == ' ' && line.last() == '(' {
        line.len() - 2
    } else {
        mode_index(line.drop_last())
    }
}

/// The name and the mode that a line tells: `name (mode)`. A line without a mode tells
/// nothing.
pub open spec fn profile_of_line(line: Seq<char>) -> Option<(Seq<char>, Seq<char>)> {
    let i = mode_index(line);
    if i < 0 || i + 2 >= line.len() - 1 {
        None
    } else {
        Some((line.subrange(0, i), line.subrange(i + 2, line.len() - 1)))
    }
}

/// The profiles that lines tell of.
pub open spec fn profiles_of(lines: Seq<Seq<char>>) -> Seq<(Seq<char>, Seq<char>)>
    decreases lines.len(),
{
    if lines.len() == 0 {
        Seq::empty()
    } else {
        let before = profiles_of(lines.drop_last());
        match profile_of_line(lines.last()) {
            Some(p) => before.push(p),
            None => before,
        }
    }
}

/// A line with a mode ends in an ASCII character.
pub open spec fn ends_plainly(line: Seq<char>) -> bool {
    mode_index(line) >= 0 ==> (line.last() as u32) < 128
}

fn find_mode(chars: &Vec<char>) -> (r: Option<usize>)
    ensures
        match r {
            Some(i) => i == mode_index(chars@) && i + 2 <= chars@.len(),
            None => mode_index(chars@) == -1,
        },
{
    let mut n: usize = chars.len();
    assert(chars@.take(n as int) =~= chars@);
    while n >= 2
        invariant
            n <= chars@.len(),
            mode_index(chars@.take(n as int)) == mode_index(chars@),
        decreases n,
    {
        assert(chars@.take(n as int).drop_last() =~= chars@.take(n - 1));
        if chars[n - 2] == ' ' && chars[n - 1] == '(' {
            return Some(n - 2);
        }
        n -= 1;
    }
    None
}

/// Whether every line of `content` that has a mode ends in an ASCII character.
pub fn lines_end_plainly(content: &str) -> (r: bool)
    ensures
        r == forall|i: int| 0 <= i < lines(content@).len() ==> ends_plainly(#[trigger] lines(content@)[i]),
{
    let all = lines_of(content);
    let mut i: usize = 0;
    while i < all.len()
        invariant
            i <= all@.len(),
            texts(all@) == lines(content@),
            forall|j: int| 0 <= j < i ==> ends_plainly(#[trigger] lines(content@)[j]),
        decreases all.len() - i,
    {
        let chars = chars_of(all[i].as_str());
        assert(lines(content@)[i as int] == chars@);
        if find_mode(&chars).is_some() {
            let last = chars[chars.len() - 1];
            if last as u32 >= 128 {
                assert(!ends_plainly(lines(content@)[i as int]));
                return false;
            }
        }
        i += 1;
    }
    true
}

pub open spec fn profile_views(p: Seq<Profile>) -> Seq<(Seq<char>, Seq<char>)> {
    Seq::new(p.len(), |i: int| (p[i].name@, p[i].mode.name()))
}

/// The loaded profiles, from the file that lists them. What is cut off behind the mode
/// is one byte, so a line must not end within a longer character.
pub fn parse_profiles(content: &str) -> (r: Vec<Profile>)
    requires
        forall|i: int| 0 <= i < lines(content@).len() ==> ends_plainly(#[trigger] lines(content@)[i]),
    ensures
        profile_views(r@) == profiles_of(lines(content@)),
        forall|i: int| 0 <= i < r@.len() ==> ((#[trigger] r@[i]).mode is Unknown
            <==> !ProfileMode::is_known_name(r@[i].mode.name())),
{
    let all = lines_of(content);
    let ghost ls = lines(content@);
    let mut out: Vec<Profile> = Vec::new();
    let mut i: usize = 0;
    assert(ls.take(0) =~= Seq::empty());
    assert(profile_views(out@) =~= Seq::empty());
    while i < all.len()
        invariant
            i <= all@.len(),
            texts(all@) == ls,
            profile_views(out@) == profiles_of(ls.take(i as int)),
            forall|j: int| 0 <= j < out@.len() ==> ((#[trigger] out@[j]).mode is Unknown
                <==> !ProfileMode::is_known_name(out@[j].mode.name())),
        decreases all.len() - i,
    {
        let chars = chars_of(all[i].as_str());
        let ghost line = ls[i as int];
        assert(chars@ == line);
        assert(ls.take(i + 1).drop_last() =~= ls.take(i as int));
        let ghost before = profile_views(out@);
        let n: usize = chars.len();
        if let Some(idx) = find_mode(&chars) {
            if idx + 2 < n - 1 {
                let name = slice_text(&chars, 0, idx);
                let mode = ProfileMode::of(slice_text(&chars, idx + 2, n - 1).as_str());
                let ghost p = (name@, mode.name());
                out.push(Profile { name, mode });
                assert(profile_views(out@) =~= before.push(p));
            }
        }
        i += 1;
    }
    assert(ls.take(i as int) =~= ls);
    out
}

/// The first of the profiles that has the name.
pub fn get_profile<'a>(profiles: &'a Vec<Profile>, name: &str) -> (r: Option<&'a Profile>)
    ensures
        match r {
            Some(p) => exists|i: int|
                {
                    &&& 0 <= i < profiles@.len()
                    &&& *p == #[trigger] profiles@[i]
                    &&& p.name@ == name@
                    &&& forall|j: int| 0 <= j < i ==> (#[trigger] profiles@[j]).name@ != name@
                },
            None => forall|j: int|
                0 <= j < profiles@.len() ==> (#[trigger] profiles@[j]).name@ != name@,
        },
{
    let mut i: usize = 0;
    while i < profiles.len()
        invariant
            i <= profiles@.len(),
            forall|j: int| 0 <= j < i ==> (#[trigger] profiles@[j]).name@ != name@,
        decreases profiles.len() - i,
    {
        if is_same(profiles[i].name.as_str(), name) {
            return Some(&profiles[i]);
        }
        i += 1;
    }
    None
}

/// Asking step by step gives what the host's answers together say.
pub proof fn law_steps_agree(sys: AppArmorState)
    ensures
        ({
            let s1 = enabled_step(EnabledStep::ReadEnabled, sys.enabled);
            let s2 = if s1 is ReadAvailable {
                enabled_step(s1, sys.available)
            } else {
                s1
            };
            let s3 = if s2 is FindMountpoint {
                enabled_step(s2, sys.mountpoint)
            } else {
                s2
            };
            s3 == EnabledStep::Finish(is_enabled_spec(sys))
        }),
{
}

/// AppArmor counts as enabled only where it is switched on and mounted.
pub proof fn law_enabled_means_mounted(sys: AppArmorState)
    requires
        is_enabled_spec(sys) == Ok::<bool, ReadError>(true),
    ensures
        sys.enabled == Ok::<bool, ReadError>(true),
        sys.mountpoint == Ok::<bool, ReadError>(true),
{
}

/// A line made of a name and a mode tells that name and that mode.
pub proof fn law_profile_line_read_back(name: Seq<char>, mode: Seq<char>)
    requires
        mode.len() > 0,
        mode_index(seq![' ', '('] + mode + seq![')']) == 0,
    ensures
        profile_of_line(name + seq![' ', '('] + mode + seq![')']) == Some((name, mode)),
{
    let tail = seq![' ', '('] + mode + seq![')'];
    let line = name + seq![' ', '('] + mode + seq![')'];
    assert(line =~= name + tail);
    lemma_mode_index_shift(name, tail);
    assert(line.subrange(0, name.len() as int) =~= name);
    assert(line.subrange(name.len() as int + 2, line.len() - 1) =~= mode);
}

proof fn lemma_mode_index_shift(name: Seq<char>, tail: Seq<char>)
    requires
        tail.len() >= 2,
        mode_index(tail) >= 0,
    ensures
        mode_index(name + tail) == name.len() + mode_index(tail),
    decreases tail.len(),
{
    let s = name + tail;
    assert(s.last() == tail.last());
    assert(s[s.len() - 2] == tail[tail.len() - 2]);
    if tail[tail.len() - 2] == ' ' && tail.last() == '(' {
    } else {
        assert(s.drop_last() =~= name + tail.drop_last());
        if tail.len() == 2 {
            assert(mode_index(tail.drop_last()) == -1);
        } else {
            lemma_mode_index_shift(name, tail.drop_last());
        }
    }
}

/// Whether AppArmor is enabled, case by case: it is where it is switched on and mounted; where
/// it is off, or there for private use only, it is not; and what cannot be read, other than
/// that a parameter is not there, is a failure.
pub proof fn law_when_apparmor_is_enabled(sys: AppArmorState, e: ReadError)
    ensures
        sys.enabled == Ok::<bool, ReadError>(true) ==> is_enabled_spec(sys) == sys.mountpoint,
        sys.enabled == Ok::<bool, ReadError>(false) && sys.available == Ok::<bool, ReadError>(false)
            ==> is_enabled_spec(sys) == Ok::<bool, ReadError>(false),
        sys.enabled == Err::<bool, ReadError>(ReadError::NotFound) && sys.available == Err::<
            bool,
            ReadError,
        >(ReadError::NotFound) ==> is_enabled_spec(sys) == Ok::<bool, ReadError>(false),
        sys.enabled == Ok::<bool, ReadError>(false) && sys.available == Ok::<bool, ReadError>(true)
            && sys.mountpoint is Ok ==> is_enabled_spec(sys) == Ok::<bool, ReadError>(false),
        sys.enabled == Err::<bool, ReadError>(e) && e != ReadError::NotFound ==> is_enabled_spec(
            sys,
        ) == Err::<bool, ReadError>(e),
        sys.enabled == Ok::<bool, ReadError>(false) && sys.available == Err::<bool, ReadError>(e)
            && e != ReadError::NotFound ==> is_enabled_spec(sys) == Err::<bool, ReadError>(e),
{
}

/// The names that the kernel has for modes.
pub proof fn law_names_of_modes(other: String)
    ensures
        ProfileMode::Enforce.name() == "enforce"@,
        ProfileMode::Complain.name() == "complain"@,
        ProfileMode::Kill.name() == "kill"@,
        ProfileMode::Unconfined.name() == "unconfined"@,
        ProfileMode::Unknown(other).name() == other@,
{
}

/// AppArmor is looked for below each security file system, and nowhere else.
pub proof fn law_where_apparmor_may_be(mounts: Seq<(String, String)>, kind: String, path: String)
    ensures
        kind@ == "securityfs"@ ==> mountpoint_candidates(mounts.push((kind, path)))
            == mountpoint_candidates(mounts).push(joined(path@, "apparmor"@)),
        kind@ != "securityfs"@ ==> mountpoint_candidates(mounts.push((kind, path)))
            == mountpoint_candidates(mounts),
        mountpoint_candidates(Seq::empty()).len() == 0,
{
    assert(mounts.push((kind, path)).drop_last() =~= mounts);
}

/// White space around a text does not count, and nothing else is cut off.
pub proof fn law_white_space_around_is_cut(s: Seq<char>, c: char)
    ensures
        white_space(c) ==> trimmed(seq![c] + s) == trimmed(s),
        s.len() == 0 || (!white_space(s[0]) && !white_space(s.last())) ==> trimmed(s) == s,
        trimmed(s).len() > 0 ==> !white_space(trimmed(s)[0]) && !white_space(trimmed(s).last()),
    decreases s.len(),
{
    assert((seq![c] + s).drop_first() =~= s);
    if s.len() > 0 && white_space(s[0]) {
        law_white_space_around_is_cut(s.drop_first(), c);
    } else if s.len() > 0 && white_space(s.last()) {
        law_white_space_around_is_cut(s.drop_last(), c);
    }
}

/// The profiles are told line by line, in order; a line without a mode tells of none.
pub proof fn law_profiles_line_by_line(lines: Seq<Seq<char>>, line: Seq<char>)
    ensures
        profiles_of(Seq::empty()).len() == 0,
        profile_of_line(line) matches Some(p) ==> profiles_of(lines.push(line)) == profiles_of(
            lines,
        ).push(p),
        profile_of_line(line) is None ==> profiles_of(lines.push(line)) == profiles_of(lines),
{
    assert(lines.push(line).drop_last() =~= lines);
}

} // verus!
