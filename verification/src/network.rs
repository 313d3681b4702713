//! Names of a package's interfaces and namespaces, and the rules they obey.

use crate::path::{join, joined, texts};
use crate::text::{chars_of, control, is_control, is_white_space, join2, starts_with, white_space};
use vstd::prelude::*;
use vstd::utf8::encode_utf8;

verus! {

/// The interface name inside a container where the package asks for none.
pub const DEFAULT_CONTAINER_INTERFACE: &'static str = "eth0";

/// What SHA-256 makes of a message.
pub uninterp spec fn sha256(message: Seq<u8>) -> Seq<u8>;

/// `rsa::sha2::Sha256::digest`. The digest is named; beside the name only its length
/// of 32 bytes is stated.
#[verifier::external_body]
fn sha256_digest(message: &[u8]) -> (r: Vec<u8>)
    ensures
        r@ == sha256(message@),
        r@.len() == 32,
{
    <rsa::sha2::Sha256 as rsa::sha2::Digest>::digest(message).to_vec()
}

/// The hexadecimal digit of a number below sixteen, in lower case.
pub open spec fn hex_digit(d: u8) -> char {
    if d < 10 {
        ((48 + d) as u8) as char
    } else {
        ((87 + d) as u8) as char
    }
}

/// Two hexadecimal digits for each byte, the higher half first.
pub open spec fn hex(bytes: Seq<u8>) -> Seq<char> {
    Seq::new(
        2 * bytes.len(),
        |i: int|
            if i % 2 == 0 {
                hex_digit(bytes[i / 2] / 16)
            } else {
                hex_digit(bytes[i / 2] % 16)
            },
    )
}

/// `hex::encode` writes each byte as two lower-case hexadecimal digits.
#[verifier::external_body]
fn hex_encode(bytes: &[u8]) -> (r: String)
    ensures
        r@ == hex(bytes@),
{
    hex::encode(bytes)
}

/// The id that a digest stands for: its first five bytes in hexadecimal.
pub open spec fn hash10_of(digest: Seq<u8>) -> Seq<char> {
    hex(digest.take(5))
}

/// The id of a package: ten hexadecimal digits of the digest of its name.
pub open spec fn package_id(pkg: Seq<char>) -> Seq<char> {
    hash10_of(sha256(encode_utf8(pkg)))
}

pub fn hash10(digest: &[u8]) -> (r: String)
    requires
        digest@.len() >= 5,
    ensures
        r@ == hash10_of(digest@),
        r@.len() == 10,
{
    let mut head: Vec<u8> = Vec::new();
    let mut i: usize = 0;
    while i < 5
        invariant
            i <= 5 <= digest@.len(),
            head@ == digest@.take(i as int),
        decreases 5 - i,
    {
        head.push(digest[i]);
        assert(digest@.take(i + 1) =~= digest@.take(i as int).push(digest@[i as int]));
        i += 1;
    }
    hex_encode(head.as_slice())
}

/// The id that the interface and the namespace of a package share.
pub fn pkg_hash10(pkg: &str) -> (r: String)
    ensures
        r@ == package_id(pkg@),
        r@.len() == 10,
{
    let digest = sha256_digest(pkg.as_bytes());
    hash10(digest.as_slice())
}

pub open spec fn bridge_name_spec(bridge_id: Seq<char>) -> Seq<char> {
    "ssb-"@ + package_id(bridge_id)
}

/// The name of the host bridge for a bridge id.
pub fn bridge_name(bridge_id: &str) -> (r: String)
    ensures
        r@ == bridge_name_spec(bridge_id@),
        r@.len() == 14,
{
    proof {
        reveal_strlit("ssb-");
    }
    join2("ssb-", pkg_hash10(bridge_id).as_str())
}

pub open spec fn netns_name_spec(pkg: Seq<char>) -> Seq<char> {
    "ssam-"@ + package_id(pkg)
}

/// The name of a package's network namespace.
pub fn netns_name(pkg: &str) -> (r: String)
    ensures
        r@ == netns_name_spec(pkg@),
        r@.len() == 15,
{
    proof {
        reveal_strlit("ssam-");
    }
    join2("ssam-", pkg_hash10(pkg).as_str())
}

/// The name of the host end of a package's interface pair. It is the name of the
/// package's namespace too, and as long as an interface name may be.
pub fn veth_host_name(pkg: &str) -> (r: String)
    ensures
        r@ == netns_name_spec(pkg@),
        r@.len() == 15,
{
    netns_name(pkg)
}

pub open spec fn netns_dir_spec(temp_dir: Seq<char>) -> Seq<char> {
    joined(joined(temp_dir, "ssam"@), "netns"@)
}

/// Where the named namespaces are kept, below the directory for temporary files.
pub fn netns_dir(temp_dir: &str) -> (r: String)
    ensures
        r@ == netns_dir_spec(temp_dir@),
{
    join(join(temp_dir, "ssam").as_str(), "netns")
}

/// The path of a named namespace.
pub fn netns_path(temp_dir: &str, name: &str) -> (r: String)
    ensures
        r@ == joined(netns_dir_spec(temp_dir@), name@),
{
    join(netns_dir(temp_dir).as_str(), name)
}

/// What a directory looks like to `lstat`.
#[derive(Debug, Clone, Copy, PartialEq, Eq, Structural)]
pub struct DirStat {
    pub is_dir: bool,
    pub uid: u32,
    pub mode: u32,
}

/// Whether a directory can be trusted: a real directory of root's that nobody else
/// may enter.
pub fn is_root_only_dir(stat: DirStat) -> (r: bool)
    ensures
        r == (stat.is_dir && stat.uid == 0 && stat.mode & 0o777 == 0o700),
{
    stat.is_dir && stat.uid == 0 && stat.mode & 0o777 == 0o700
}

/// Whether `stat` is that of the namespace tree: both the directory and the one that
/// holds it are for root only.
pub fn ensure_netns_tree_trusted(parent: DirStat, dir: DirStat) -> (r: bool)
    ensures
        r == (parent.is_dir && parent.uid == 0 && parent.mode & 0o777 == 0o700 && dir.is_dir
            && dir.uid == 0 && dir.mode & 0o777 == 0o700),
{
    is_root_only_dir(parent) && is_root_only_dir(dir)
}

/// The part of creating a namespace that failed.
#[derive(Debug, Clone, Copy, PartialEq, Eq, Structural)]
pub enum NetnsError {
    /// What an interrupted creation left could not be unmounted.
    Unmount,
    /// What an interrupted creation left could not be removed.
    Remove,
    /// The file to bind the namespace to could not be made.
    Target,
    /// The namespace could not be made or bound.
    Bind,
}

/// Creating a named namespace, step by step.
#[derive(Debug, Clone, Copy, PartialEq, Eq, Structural)]
pub enum NetnsCreation {
    /// See whether anything is at the path.
    CheckPath,
    /// See whether it is a namespace.
    CheckNetns,
    /// Something else is there, left by an interrupted creation: it goes first.
    UnmountStale,
    RemoveStale,
    CreateTarget,
    /// Make the namespace and bind it to the file.
    Bind,
    /// Remove the file that nothing is bound to; that it fails changes nothing of the
    /// result.
    RemoveTarget,
    /// A namespace was there already and is kept.
    Kept,
    Created,
    Failed(NetnsError),
}

/// The step that follows, by what was seen or whether the step succeeded.
pub open spec fn creation_step(step: NetnsCreation, answer: bool) -> NetnsCreation {
    match step {
        NetnsCreation::CheckPath => if answer {
            NetnsCreation::CheckNetns
        } else {
            NetnsCreation::CreateTarget
        },
        NetnsCreation::CheckNetns => if answer {
            NetnsCreation::Kept
        } else {
            NetnsCreation::UnmountStale
        },
        NetnsCreation::UnmountStale => if answer {
            NetnsCreation::RemoveStale
        } else {
            NetnsCreation::Failed(NetnsError::Unmount)
        },
        NetnsCreation::RemoveStale => if answer {
            NetnsCreation::CreateTarget
        } else {
            NetnsCreation::Failed(NetnsError::Remove)
        },
        NetnsCreation::CreateTarget => if answer {
            NetnsCreation::Bind
        } else {
            NetnsCreation::Failed(NetnsError::Target)
        },
        NetnsCreation::Bind => if answer {
            NetnsCreation::Created
        } else {
            NetnsCreation::RemoveTarget
        },
        NetnsCreation::RemoveTarget => NetnsCreation::Failed(NetnsError::Bind),
        _ => step,
    }
}

/// Takes the creation of a namespace one step further.
pub fn create_netns_next(step: NetnsCreation, answer: bool) -> (r: NetnsCreation)
    ensures
        r == creation_step(step, answer),
{
    match step {
        NetnsCreation::CheckPath => if answer {
            NetnsCreation::CheckNetns
        } else {
            NetnsCreation::CreateTarget
        },
        NetnsCreation::CheckNetns => if answer {
            NetnsCreation::Kept
        } else {
            NetnsCreation::UnmountStale
        },
        NetnsCreation::UnmountStale => if answer {
            NetnsCreation::RemoveStale
        } else {
            NetnsCreation::Failed(NetnsError::Unmount)
        },
        NetnsCreation::RemoveStale => if answer {
            NetnsCreation::CreateTarget
        } else {
            NetnsCreation::Failed(NetnsError::Remove)
        },
        NetnsCreation::CreateTarget => if answer {
            NetnsCreation::Bind
        } else {
            NetnsCreation::Failed(NetnsError::Target)
        },
        NetnsCreation::Bind => if answer {
            NetnsCreation::Created
        } else {
            NetnsCreation::RemoveTarget
        },
        NetnsCreation::RemoveTarget => NetnsCreation::Failed(NetnsError::Bind),
        other => other,
    }
}

/// What stands at a path.
#[derive(Debug, Clone, Copy, PartialEq, Eq, Structural)]
pub enum AtPath {
    Nothing,
    /// A file that is no namespace.
    Plain,
    Namespace,
}

/// What stands at the path after a step.
pub open spec fn at_path_after(at: AtPath, step: NetnsCreation, answer: bool) -> AtPath {
    match step {
        NetnsCreation::RemoveStale if answer => AtPath::Nothing,
        NetnsCreation::RemoveTarget if answer => AtPath::Nothing,
        NetnsCreation::CreateTarget if answer => AtPath::Plain,
        NetnsCreation::Bind if answer => AtPath::Namespace,
        _ => at,
    }
}

/// Whether an answer is true of what stands at the path.
pub open spec fn is_true_answer(at: AtPath, step: NetnsCreation, answer: bool) -> bool {
    match step {
        NetnsCreation::CheckPath => answer == !(at is Nothing),
        NetnsCreation::CheckNetns => answer == (at is Namespace),
        _ => true,
    }
}

/// The step that a creation has come to, and what stands at the path then.
pub open spec fn creation_run(at: AtPath, answers: Seq<bool>) -> (NetnsCreation, AtPath)
    decreases answers.len(),
{
    if answers.len() == 0 {
        (NetnsCreation::CheckPath, at)
    } else {
        let (step, now) = creation_run(at, answers.drop_last());
        (creation_step(step, answers.last()), at_path_after(now, step, answers.last()))
    }
}

/// Whether all the answers were true.
pub open spec fn all_true_answers(at: AtPath, answers: Seq<bool>) -> bool
    decreases answers.len(),
{
    answers.len() > 0 ==> {
        let before = answers.drop_last();
        &&& all_true_answers(at, before)
        &&& is_true_answer(
            creation_run(at, before).1,
            creation_run(at, before).0,
            answers.last(),
        )
    }
}

/// Where a creation succeeds, a namespace is at the path. One that was there before stays
/// there throughout, so it survives a restart of the daemon. A creation that fails for
/// want of a namespace leaves nothing that a later one could take for one.
pub proof fn law_created_is_namespace(at: AtPath, answers: Seq<bool>)
    requires
        all_true_answers(at, answers),
    ensures
        ({
            let (step, now) = creation_run(at, answers);
            &&& step is Kept || step is Created ==> now is Namespace
            &&& at is Namespace ==> now is Namespace
            &&& now is Namespace ==> at is Namespace || step is Created
            &&& step is RemoveTarget ==> now is Plain
            &&& (answers.len() > 0 && creation_run(at, answers.drop_last()).0 is RemoveTarget
                && answers.last()) ==> step == NetnsCreation::Failed(NetnsError::Bind)
                && now is Nothing
        }),
    decreases answers.len(),
{
    lemma_creation(at, answers);
}

proof fn lemma_creation(at: AtPath, answers: Seq<bool>)
    requires
        all_true_answers(at, answers),
    ensures
        ({
            let (step, now) = creation_run(at, answers);
            match step {
                NetnsCreation::CheckPath => now == at,
                NetnsCreation::CheckNetns => now == at && !(at is Nothing),
                NetnsCreation::UnmountStale | NetnsCreation::RemoveStale => now is Plain && at
                    is Plain,
                NetnsCreation::CreateTarget => now is Nothing && !(at is Namespace),
                NetnsCreation::Bind | NetnsCreation::RemoveTarget => now is Plain && !(at
                    is Namespace),
                NetnsCreation::Kept => now is Namespace && at is Namespace,
                NetnsCreation::Created => now is Namespace && !(at is Namespace),
                NetnsCreation::Failed(_) => !(now is Namespace) && !(at is Namespace),
            }
        }),
    decreases answers.len(),
{
    if answers.len() > 0 {
        lemma_creation(at, answers.drop_last());
    }
}

/// What the kernel says of the kind of a namespace.
#[derive(Debug, Clone, Copy, PartialEq, Eq, Structural)]
pub enum NsProbe {
    /// The path cannot be opened.
    Unopened,
    /// What is there has no kind.
    Unanswered,
    Kind(i32),
}

/// Why a path is not that of a network namespace.
#[derive(Debug, Clone, Copy, PartialEq, Eq, Structural)]
pub enum NotNetns {
    Unopened,
    Unanswered,
    /// It is a namespace of another kind.
    OtherKind(i32),
}

impl NotNetns {
    pub fn message(&self) -> (r: &'static str)
        ensures
            r@ == match *self {
                NotNetns::Unopened => "Failed to open"@,
                NotNetns::Unanswered => "NS_GET_NSTYPE ioctl failed"@,
                NotNetns::OtherKind(_) => "is not a network namespace"@,
            },
    {
        match self {
            NotNetns::Unopened => "Failed to open",
            NotNetns::Unanswered => "NS_GET_NSTYPE ioctl failed",
            NotNetns::OtherKind(_) => "is not a network namespace",
        }
    }
}

/// The kind of a network namespace.
pub const CLONE_NEWNET: i32 = 0x4000_0000;

/// Whether what stands at a path is a network namespace.
pub fn verify_is_netns(probe: NsProbe) -> (r: Result<(), NotNetns>)
    ensures
        r == match probe {
            NsProbe::Unopened => Err::<(), NotNetns>(NotNetns::Unopened),
            NsProbe::Unanswered => Err(NotNetns::Unanswered),
            NsProbe::Kind(kind) => if kind == CLONE_NEWNET {
                Ok(())
            } else {
                Err(NotNetns::OtherKind(kind))
            },
        },
{
    match probe {
        NsProbe::Unopened => Err(NotNetns::Unopened),
        NsProbe::Unanswered => Err(NotNetns::Unanswered),
        NsProbe::Kind(kind) => if kind == CLONE_NEWNET {
            Ok(())
        } else {
            Err(NotNetns::OtherKind(kind))
        },
    }
}

/// What the kernel says of a link, as far as it is asked for.
#[derive(Debug)]
pub enum LinkAttribute {
    /// The index of the link that this one is a port of.
    Controller(u32),
    IfName(String),
    Other,
}

/// Where the attributes of a link name its controller first.
pub open spec fn controller_spec(attributes: Seq<LinkAttribute>) -> Option<u32>
    decreases attributes.len(),
{
    if attributes.len() == 0 {
        None
    } else {
        match attributes[0] {
            LinkAttribute::Controller(index) => Some(index),
            _ => controller_spec(attributes.drop_first()),
        }
    }
}

/// The index of the link that this one is a port of, if it is one.
pub fn controller_of(attributes: &Vec<LinkAttribute>) -> (r: Option<u32>)
    ensures
        r == controller_spec(attributes@),
{
    let mut i: usize = 0;
    assert(attributes@.skip(0) =~= attributes@);
    while i < attributes.len()
        invariant
            i <= attributes@.len(),
            controller_spec(attributes@) == controller_spec(attributes@.skip(i as int)),
        decreases attributes.len() - i,
    {
        assert(attributes@.skip(i as int).drop_first() =~= attributes@.skip(i + 1));
        if let LinkAttribute::Controller(index) = &attributes[i] {
            return Some(*index);
        }
        i += 1;
    }
    None
}

/// The name that the attributes of a link give it first.
pub open spec fn link_name_spec(attributes: Seq<LinkAttribute>) -> Option<Seq<char>>
    decreases attributes.len(),
{
    if attributes.len() == 0 {
        None
    } else {
        match attributes[0] {
            LinkAttribute::IfName(name) => Some(name@),
            _ => link_name_spec(attributes.drop_first()),
        }
    }
}

/// The name of a link.
pub fn link_name(attributes: &Vec<LinkAttribute>) -> (r: Option<String>)
    ensures
        r is Some <==> link_name_spec(attributes@) is Some,
        r matches Some(name) ==> Some(name@) == link_name_spec(attributes@),
{
    let mut i: usize = 0;
    assert(attributes@.skip(0) =~= attributes@);
    while i < attributes.len()
        invariant
            i <= attributes@.len(),
            link_name_spec(attributes@) == link_name_spec(attributes@.skip(i as int)),
        decreases attributes.len() - i,
    {
        assert(attributes@.skip(i as int).drop_first() =~= attributes@.skip(i + 1));
        if let LinkAttribute::IfName(name) = &attributes[i] {
            return Some(name.clone());
        }
        i += 1;
    }
    None
}

/// Where the system lists the links.
pub const SYS_CLASS_NET: &'static str = "/sys/class/net";

/// Where the system tells of a link of that name, if there is one.
pub fn link_path(name: &str) -> (r: String)
    ensures
        r@ == joined(SYS_CLASS_NET@, name@),
{
    join(SYS_CLASS_NET, name)
}

/// The answers to the two steps of deleting a namespace that count as success: what
/// was not mounted, or not there, need not be undone.
#[derive(Debug, Clone, Copy, PartialEq, Eq, Structural)]
pub enum RemovalOutcome {
    Done,
    NotMounted,
    NotFound,
    Failed,
}

pub fn is_unmounted(outcome: RemovalOutcome) -> (r: bool)
    ensures
        r == !(outcome is Failed),
{
    match outcome {
        RemovalOutcome::Failed => false,
        _ => true,
    }
}

pub fn is_removed(outcome: RemovalOutcome) -> (r: bool)
    ensures
        r == (outcome is Done || outcome is NotFound),
{
    match outcome {
        RemovalOutcome::Done | RemovalOutcome::NotFound => true,
        _ => false,
    }
}

/// Why an interface name is refused.
#[derive(Debug, Clone, Copy, PartialEq, Eq, Structural)]
pub enum InterfaceNameError {
    /// It has not between one and fifteen bytes.
    Length,
    /// It is `.` or `..`.
    Dots,
    /// It holds `/`, `:`, white space or a control character.
    Character,
}

pub open spec fn is_name_char(c: char) -> bool {
    c != '/' && c != ':' && !white_space(c) && !control(c)
}

/// The first rule of the kernel that an interface name breaks.
pub open spec fn interface_name_fault(name: Seq<char>) -> Option<InterfaceNameError> {
    let n = encode_utf8(name).len();
    if n < 1 || n > 15 {
        Some(InterfaceNameError::Length)
    } else if name == seq!['.'] || name == seq!['.', '.'] {
        Some(InterfaceNameError::Dots)
    } else if exists|i: int| 0 <= i < name.len() && !is_name_char(#[trigger] name[i]) {
        Some(InterfaceNameError::Character)
    } else {
        None
    }
}

/// Checks an interface name against the rules of the kernel.
pub fn validate_interface_name(name: &str) -> (r: Result<(), InterfaceNameError>)
    ensures
        r == match interface_name_fault(name@) {
            Some(e) => Err::<(), InterfaceNameError>(e),
            None => Ok(()),
        },
{
    let n: usize = name.as_bytes().len();
    if n < 1 || n > 15 {
        return Err(InterfaceNameError::Length);
    }
    proof {
        reveal_strlit(".");
        reveal_strlit("..");
        assert("."@ =~= seq!['.']);
        assert(".."@ =~= seq!['.', '.']);
    }
    if crate::text::is_same(name, ".") || crate::text::is_same(name, "..") {
        return Err(InterfaceNameError::Dots);
    }
    let chars = chars_of(name);
    let mut i: usize = 0;
    while i < chars.len()
        invariant
            i <= chars@.len(),
            chars@ == name@,
            1 <= encode_utf8(name@).len() <= 15,
            name@ != seq!['.'] && name@ != seq!['.', '.'],
            forall|j: int| 0 <= j < i ==> is_name_char(#[trigger] name@[j]),
        decreases chars.len() - i,
    {
        let c = chars[i];
        if c == '/' || c == ':' || is_white_space(c) || is_control(c) {
            assert(!is_name_char(name@[i as int]));
            return Err(InterfaceNameError::Character);
        }
        i += 1;
    }
    Ok(())
}

/// The names that begin with `prefix`, in order.
pub open spec fn with_prefix(names: Seq<Seq<char>>, prefix: Seq<char>) -> Seq<Seq<char>>
    decreases names.len(),
{
    if names.len() == 0 {
        Seq::empty()
    } else if prefix.is_prefix_of(names.last()) {
        with_prefix(names.drop_last(), prefix).push(names.last())
    } else {
        with_prefix(names.drop_last(), prefix)
    }
}

fn select_prefix(names: &Vec<String>, prefix: &str) -> (r: Vec<String>)
    ensures
        texts(r@) == with_prefix(texts(names@), prefix@),
{
    let mut out: Vec<String> = Vec::new();
    let mut i: usize = 0;
    assert(texts(names@).take(0) =~= Seq::empty());
    assert(texts(out@) =~= Seq::empty());
    while i < names.len()
        invariant
            i <= names@.len(),
            texts(out@) == with_prefix(texts(names@).take(i as int), prefix@),
        decreases names.len() - i,
    {
        let ghost upto = texts(names@).take(i + 1);
        assert(upto.drop_last() =~= texts(names@).take(i as int));
        let ghost before = texts(out@);
        if starts_with(names[i].as_str(), prefix) {
            out.push(names[i].clone());
            assert(texts(out@) =~= before.push(names@[i as int]@));
        }
        i += 1;
    }
    assert(texts(names@).take(i as int) =~= texts(names@));
    out
}

/// The daemon's own links among those of the host: interface ends, then bridges.
pub fn managed_links(names: &Vec<String>) -> (r: (Vec<String>, Vec<String>))
    ensures
        texts(r.0@) == with_prefix(texts(names@), "ssam-"@),
        texts(r.1@) == with_prefix(texts(names@), "ssb-"@),
{
    (select_prefix(names, "ssam-"), select_prefix(names, "ssb-"))
}

/// Whether one of the ports of a bridge is an interface of the daemon's.
pub fn has_managed_slave(ports: &Vec<String>) -> (r: bool)
    ensures
        r == exists|i: int| 0 <= i < ports@.len() && "ssam-"@.is_prefix_of((#[trigger] ports@[i])@),
{
    let mut i: usize = 0;
    while i < ports.len()
        invariant
            i <= ports@.len(),
            forall|j: int| 0 <= j < i ==> !"ssam-"@.is_prefix_of((#[trigger] ports@[j])@),
        decreases ports.len() - i,
    {
        if starts_with(ports[i].as_str(), "ssam-") {
            return true;
        }
        i += 1;
    }
    false
}

/// Whether an entry of the namespace directory is one of the daemon's.
pub fn is_managed_netns(name: &str) -> (r: bool)
    ensures
        r == "ssam-"@.is_prefix_of(name@),
{
    starts_with(name, "ssam-")
}

/// The interface and the namespace of a package have the same name, so that the one
/// is found from the other; the name is a legal interface name in length, and no
/// bridge has it.
pub proof fn law_names_in_lockstep(pkg: Seq<char>, bridge_id: Seq<char>)
    ensures
        "ssam-"@.is_prefix_of(netns_name_spec(pkg)),
        "ssb-"@.is_prefix_of(bridge_name_spec(bridge_id)),
        !"ssb-"@.is_prefix_of(netns_name_spec(pkg)),
        !"ssam-"@.is_prefix_of(bridge_name_spec(bridge_id)),
        netns_name_spec(pkg) != bridge_name_spec(bridge_id),
{
    reveal_strlit("ssam-");
    reveal_strlit("ssb-");
    let veth = netns_name_spec(pkg);
    let br = bridge_name_spec(bridge_id);
    assert(veth.subrange(0, 5) =~= "ssam-"@);
    assert(br.subrange(0, 4) =~= "ssb-"@);
    assert(veth[2] == 'a');
    assert(br[2] == 'b');
    if "ssb-"@.is_prefix_of(veth) {
        assert(veth.subrange(0, 4)[2] == 'b');
    }
    if "ssam-"@.is_prefix_of(br) {
        assert(br.subrange(0, 5)[2] == 'a');
    }
}

/// Different digests of which the first five bytes differ give different ids.
pub proof fn law_hash10_injective(a: Seq<u8>, b: Seq<u8>)
    requires
        a.len() >= 5,
        b.len() >= 5,
        hash10_of(a) == hash10_of(b),
    ensures
        a.take(5) == b.take(5),
{
    assert forall|i: int| 0 <= i < 5 implies a.take(5)[i] == b.take(5)[i] by {
        let x = a.take(5)[i];
        let y = b.take(5)[i];
        let hi = hash10_of(a)[2 * i];
        let lo = hash10_of(a)[2 * i + 1];
        assert(hi == hex_digit(x / 16) && hash10_of(b)[2 * i] == hex_digit(y / 16));
        assert(lo == hex_digit(x % 16) && hash10_of(b)[2 * i + 1] == hex_digit(y % 16));
        lemma_hex_digit_injective((x / 16) as u8, (y / 16) as u8);
        lemma_hex_digit_injective((x % 16) as u8, (y % 16) as u8);
        assert(x == 16 * (x / 16) + x % 16);
    }
    assert(a.take(5) =~= b.take(5));
}

pub(crate) proof fn lemma_hex_digit_injective(x: u8, y: u8)
    requires
        x < 16,
        y < 16,
        hex_digit(x) == hex_digit(y),
    ensures
        x == y,
{
    let cx: u8 = if x < 10 { (48 + x) as u8 } else { (87 + x) as u8 };
    let cy: u8 = if y < 10 { (48 + y) as u8 } else { (87 + y) as u8 };
    assert(cx as char as u32 == cx as u32);
    assert(cy as char as u32 == cy as u32);
}

/// The names of a package's things are made of the digest of its name: five bytes of it, in
/// hexadecimal, the higher half of each byte first.
pub proof fn law_names_are_of_the_digest(pkg: Seq<char>, i: int)
    requires
        0 <= i < 5,
        sha256(encode_utf8(pkg)).len() == 32,
    ensures
        ({
            let digest = sha256(encode_utf8(pkg));
            let veth = netns_name_spec(pkg);
            let bridge = bridge_name_spec(pkg);
            &&& veth.len() == 15
            &&& veth.subrange(0, 5) == "ssam-"@
            &&& veth[5 + 2 * i] == hex_digit((digest[i] / 16) as u8)
            &&& veth[6 + 2 * i] == hex_digit((digest[i] % 16) as u8)
            &&& bridge.len() == 14
            &&& bridge.subrange(0, 4) == "ssb-"@
            &&& bridge.skip(4) == veth.skip(5)
        }),
{
    reveal_strlit("ssam-");
    reveal_strlit("ssb-");
    assert(netns_name_spec(pkg).subrange(0, 5) =~= "ssam-"@);
    assert(bridge_name_spec(pkg).subrange(0, 4) =~= "ssb-"@);
    assert(bridge_name_spec(pkg).skip(4) =~= netns_name_spec(pkg).skip(5));
}

/// Hexadecimal digits: those below ten, then the first six letters.
pub proof fn law_hexadecimal_digits()
    ensures
        hex_digit(0) == '0',
        hex_digit(9) == '9',
        hex_digit(10) == 'a',
        hex_digit(15) == 'f',
{
}

/// Namespaces are kept in a directory of the daemon's own, each by its name.
pub proof fn law_place_of_namespaces(temp_dir: Seq<char>)
    requires
        temp_dir.len() > 0,
        temp_dir.last() != '/',
    ensures
        netns_dir_spec(temp_dir) == temp_dir + "/ssam/netns"@,
{
    reveal_strlit("ssam");
    reveal_strlit("netns");
    reveal_strlit("/ssam/netns");
    assert(netns_dir_spec(temp_dir) =~= temp_dir + "/ssam/netns"@);
}

/// An interface name that is taken is one that the kernel takes: of one to fifteen bytes, not
/// a dot or two, without separators, white space or control characters. Any other is not.
pub proof fn law_interface_names(name: Seq<char>)
    ensures
        interface_name_fault(name) is None <==> {
            &&& 1 <= encode_utf8(name).len() <= 15
            &&& name != seq!['.'] && name != seq!['.', '.']
            &&& forall|i: int|
                0 <= i < name.len() ==> (#[trigger] name[i]) != '/' && name[i] != ':'
                    && !white_space(name[i]) && !control(name[i])
        },
        encode_utf8(name).len() > 15 ==> interface_name_fault(name) == Some(
            InterfaceNameError::Length,
        ),
{
    if interface_name_fault(name) is None {
        assert forall|i: int| 0 <= i < name.len() implies (#[trigger] name[i]) != '/' && name[i]
            != ':' && !white_space(name[i]) && !control(name[i]) by {
            assert(is_name_char(name[i]));
        }
    }
}

/// Of the names with a prefix none is left out and no other is taken.
pub proof fn law_names_with_prefix(names: Seq<Seq<char>>, prefix: Seq<char>, name: Seq<char>)
    ensures
        with_prefix(names, prefix).contains(name) <==> names.contains(name) && prefix.is_prefix_of(
            name,
        ),
    decreases names.len(),
{
    if names.len() > 0 {
        let before = names.drop_last();
        law_names_with_prefix(before, prefix, name);
        let (all, rest) = (with_prefix(names, prefix), with_prefix(before, prefix));
        if names.contains(name) {
            let i = choose|i: int| 0 <= i < names.len() && names[i] == name;
            if i < before.len() {
                assert(before[i] == name);
            }
        }
        if before.contains(name) {
            let i = choose|i: int| 0 <= i < before.len() && before[i] == name;
            assert(names[i] == name);
        }
        assert(names[names.len() - 1] == names.last());
        if rest.contains(name) {
            let i = choose|i: int| 0 <= i < rest.len() && rest[i] == name;
            assert(all[i] == name);
        }
        if all.contains(name) {
            let i = choose|i: int| 0 <= i < all.len() && all[i] == name;
            if i < rest.len() {
                assert(rest[i] == name);
            }
        }
        if prefix.is_prefix_of(names.last()) {
            assert(all.last() == names.last());
            assert(all[all.len() - 1] == names.last());
        }
    }
}

/// How a namespace is created: one that is there is kept; a leftover is unmounted and
/// removed first; then the file is made and the namespace bound to it.
pub proof fn law_namespace_is_created(at: AtPath)
    ensures
        creation_run(at, seq![true, true]).0 is Kept,
        creation_run(at, seq![false]).0 is CreateTarget,
        creation_run(at, seq![false, true]).0 is Bind,
        creation_run(at, seq![false, true, true]).0 is Created,
        creation_run(at, seq![true, false]).0 is UnmountStale,
        creation_run(at, seq![true, false, true]).0 is RemoveStale,
        creation_run(at, seq![true, false, true, true]).0 is CreateTarget,
        creation_step(NetnsCreation::UnmountStale, false) == NetnsCreation::Failed(
            NetnsError::Unmount,
        ),
        creation_step(NetnsCreation::RemoveStale, false) == NetnsCreation::Failed(
            NetnsError::Remove,
        ),
        creation_step(NetnsCreation::CreateTarget, false) == NetnsCreation::Failed(
            NetnsError::Target,
        ),
        creation_step(NetnsCreation::Bind, false) is RemoveTarget,
{
    assert(seq![true].drop_last() =~= Seq::<bool>::empty());
    assert(seq![false].drop_last() =~= Seq::<bool>::empty());
    assert(seq![true, true].drop_last() =~= seq![true]);
    assert(seq![false, true].drop_last() =~= seq![false]);
    assert(seq![false, true, true].drop_last() =~= seq![false, true]);
    assert(seq![true, false].drop_last() =~= seq![true]);
    assert(seq![true, false, true].drop_last() =~= seq![true, false]);
    assert(seq![true, false, true, true].drop_last() =~= seq![true, false, true]);
    reveal_with_fuel(creation_run, 5);
}

/// The controller and the name of a link are what the first attribute of the kind says.
pub proof fn law_first_attribute_counts(attributes: Seq<LinkAttribute>, i: int)
    requires
        0 <= i < attributes.len(),
    ensures
        (forall|j: int| 0 <= j < i ==> !((#[trigger] attributes[j]) is Controller)) ==> (
        attributes[i] matches LinkAttribute::Controller(index) ==> controller_spec(attributes)
            == Some(index)),
        (forall|j: int| 0 <= j < i ==> !((#[trigger] attributes[j]) is IfName)) ==> (
        attributes[i] matches LinkAttribute::IfName(name) ==> link_name_spec(attributes) == Some(
            name@,
        )),
    decreases i,
{
    if i > 0 {
        let rest = attributes.drop_first();
        assert forall|j: int| 0 <= j < i - 1 implies #[trigger] rest[j] == attributes[j + 1] by {}
        law_first_attribute_counts(rest, i - 1);
    }
}

/// A link without such an attribute has no controller, or no name.
pub proof fn law_no_attribute_no_answer(attributes: Seq<LinkAttribute>)
    ensures
        controller_spec(attributes) is Some ==> exists|i: int|
            0 <= i < attributes.len() && (#[trigger] attributes[i]) is Controller,
        link_name_spec(attributes) is Some ==> exists|i: int|
            0 <= i < attributes.len() && (#[trigger] attributes[i]) is IfName,
    decreases attributes.len(),
{
    if attributes.len() > 0 {
        let rest = attributes.drop_first();
        law_no_attribute_no_answer(rest);
        if exists|i: int| 0 <= i < rest.len() && (#[trigger] rest[i]) is Controller {
            let i = choose|i: int| 0 <= i < rest.len() && (#[trigger] rest[i]) is Controller;
            assert(attributes[i + 1] is Controller);
        }
        if exists|i: int| 0 <= i < rest.len() && (#[trigger] rest[i]) is IfName {
            let i = choose|i: int| 0 <= i < rest.len() && (#[trigger] rest[i]) is IfName;
            assert(attributes[i + 1] is IfName);
        }
        assert(attributes[0] is Controller || attributes[0] is IfName || attributes[0] is Other);
    }
}

} // verus!
