//! The control-plane wire protocol.
//!
//! The primary serves three request targets over loopback HTTP: a ping that
//! answers `ok` and nothing else, a request to show the main window, and a
//! scheme forward whose query carries a percent-encoded deep-link payload.
//! A secondary builds the same targets when it forwards its launch intent.
//! Any other target is outside this subsystem.

use vstd::prelude::*;
use crate::percent::{decoded, encoded, percent_decode, percent_encode};

verus! {

/// A command of the control plane, as the wire carries it.
pub enum ControlCommand {
    /// Liveness check; no side effect.
    Ping,
    /// Create the main window if absent and focus it.
    ShowVisible,
    /// Hand the payload to the scheme resolver.
    HandleScheme { payload: Vec<u8> },
}

/// The mathematical shape of a control command.
pub enum CommandModel {
    Ping,
    ShowVisible,
    HandleScheme { payload: Seq<u8> },
}

impl View for ControlCommand {
    type V = CommandModel;

    open spec fn view(&self) -> CommandModel {
        match self {
            ControlCommand::Ping => CommandModel::Ping,
            ControlCommand::ShowVisible => CommandModel::ShowVisible,
            ControlCommand::HandleScheme { payload } => CommandModel::HandleScheme {
                payload: payload@,
            },
        }
    }
}

/// The request target of the ping endpoint: `/commands/ping`.
pub open spec fn ping_path() -> Seq<u8> {
    seq![
        ('/' as u8),
        ('c' as u8),
        ('o' as u8),
        ('m' as u8),
        ('m' as u8),
        ('a' as u8),
        ('n' as u8),
        ('d' as u8),
        ('s' as u8),
        ('/' as u8),
        ('p' as u8),
        ('i' as u8),
        ('n' as u8),
        ('g' as u8),
    ]
}

/// The request target of the show endpoint: `/commands/visible`.
pub open spec fn visible_path() -> Seq<u8> {
    seq![
        ('/' as u8),
        ('c' as u8),
        ('o' as u8),
        ('m' as u8),
        ('m' as u8),
        ('a' as u8),
        ('n' as u8),
        ('d' as u8),
        ('s' as u8),
        ('/' as u8),
        ('v' as u8),
        ('i' as u8),
        ('s' as u8),
        ('i' as u8),
        ('b' as u8),
        ('l' as u8),
        ('e' as u8),
    ]
}

/// What every scheme-forward target starts with: `/commands/scheme?param=`.
pub open spec fn scheme_prefix() -> Seq<u8> {
    seq![
        ('/' as u8),
        ('c' as u8),
        ('o' as u8),
        ('m' as u8),
        ('m' as u8),
        ('a' as u8),
        ('n' as u8),
        ('d' as u8),
        ('s' as u8),
        ('/' as u8),
        ('s' as u8),
        ('c' as u8),
        ('h' as u8),
        ('e' as u8),
        ('m' as u8),
        ('e' as u8),
        ('?' as u8),
        ('p' as u8),
        ('a' as u8),
        ('r' as u8),
        ('a' as u8),
        ('m' as u8),
        ('=' as u8),
    ]
}

/// The body every control endpoint answers with.
pub open spec fn ok_body() -> Seq<u8> {
    seq![('o' as u8), ('k' as u8)]
}

/// What every control URL starts with: the loopback host,
/// `http://127.0.0.1:`.
pub open spec fn url_prefix() -> Seq<u8> {
    seq![
        ('h' as u8),
        ('t' as u8),
        ('t' as u8),
        ('p' as u8),
        (':' as u8),
        ('/' as u8),
        ('/' as u8),
        ('1' as u8),
        ('2' as u8),
        ('7' as u8),
        ('.' as u8),
        ('0' as u8),
        ('.' as u8),
        ('0' as u8),
        ('.' as u8),
        ('1' as u8),
        (':' as u8),
    ]
}

/// The decimal digits of a number, most significant first, no leading zero
/// except for zero itself.
pub open spec fn decimal_digits(n: nat) -> Seq<u8>
    decreases n,
{
    if n < 10 {
        seq![(('0' as u8) + n) as u8]
    } else {
        decimal_digits(n / 10) + seq![(('0' as u8) + n % 10) as u8]
    }
}

/// The scheme-forward target carrying a payload.
pub open spec fn scheme_target_model(payload: Seq<u8>) -> Seq<u8> {
    scheme_prefix() + encoded(payload)
}

/// The target a secondary forwards: the scheme target of the second launch
/// argument when one is present, the show target otherwise.
pub open spec fn forward_target_model(args: Seq<Seq<u8>>) -> Seq<u8> {
    if args.len() > 1 {
        scheme_target_model(args[1])
    } else {
        visible_path()
    }
}

/// The full URL of a request target on the control port.
pub open spec fn url_model(port: u16, target: Seq<u8>) -> Seq<u8> {
    url_prefix() + decimal_digits(port as nat) + target
}

/// What a request target means: one of the three commands, or nothing for a
/// target outside the control plane (including a scheme target whose query
/// is malformed).
pub open spec fn parse_target_model(t: Seq<u8>) -> Option<CommandModel> {
    if t == ping_path() {
        Some(CommandModel::Ping)
    } else if t == visible_path() {
        Some(CommandModel::ShowVisible)
    } else if t.len() >= scheme_prefix().len() && t.subrange(0, scheme_prefix().len() as int)
        == scheme_prefix() {
        match decoded(t.skip(scheme_prefix().len() as int)) {
            Some(p) => Some(CommandModel::HandleScheme { payload: p }),
            None => None,
        }
    } else {
        None
    }
}

/// Whether two byte vectors hold the same bytes.
fn bytes_eq(a: &Vec<u8>, b: &Vec<u8>) -> (r: bool)
    ensures
        r == (a@ == b@),
{
    if a.len() != b.len() {
        proof {
            assert(a@ != b@);
        }
        return false;
    }
    let mut i: usize = 0;
    while i < a.len()
        invariant
            i <= a.len(),
            a.len() == b.len(),
            forall|j: int| 0 <= j < i ==> a@[j] == b@[j],
        decreases a.len() - i,
    {
        if a[i] != b[i] {
            proof {
                assert(a@ != b@);
            }
            return false;
        }
        i = i + 1;
    }
    proof {
        assert(a@ =~= b@);
    }
    true
}

/// Whether a byte vector starts with the given prefix.
fn bytes_have_prefix(t: &Vec<u8>, p: &Vec<u8>) -> (r: bool)
    ensures
        r == (t@.len() >= p@.len() && t@.subrange(0, p@.len() as int) == p@),
{
    if t.len() < p.len() {
        return false;
    }
    let mut i: usize = 0;
    while i < p.len()
        invariant
            i <= p.len(),
            p.len() <= t.len(),
            forall|j: int| 0 <= j < i ==> t@[j] == p@[j],
        decreases p.len() - i,
    {
        if t[i] != p[i] {
            proof {
                assert(t@.subrange(0, p@.len() as int)[i as int] == t@[i as int]);
                assert(t@.subrange(0, p@.len() as int) != p@);
            }
            return false;
        }
        i = i + 1;
    }
    proof {
        assert(t@.subrange(0, p@.len() as int) =~= p@);
    }
    true
}

/// The bytes of the ping target.
pub fn ping_path_bytes() -> (r: Vec<u8>)
    ensures
        r@ == ping_path(),
{
    let mut v: Vec<u8> = Vec::new();
    v.push('/' as u8);
    v.push('c' as u8);
    v.push('o' as u8);
    v.push('m' as u8);
    v.push('m' as u8);
    v.push('a' as u8);
    v.push('n' as u8);
    v.push('d' as u8);
    v.push('s' as u8);
    v.push('/' as u8);
    v.push('p' as u8);
    v.push('i' as u8);
    v.push('n' as u8);
    v.push('g' as u8);
    proof {
        assert(v@ =~= ping_path());
    }
    v
}

/// The bytes of the show target.
pub fn visible_path_bytes() -> (r: Vec<u8>)
    ensures
        r@ == visible_path(),
{
    let mut v: Vec<u8> = Vec::new();
    v.push('/' as u8);
    v.push('c' as u8);
    v.push('o' as u8);
    v.push('m' as u8);
    v.push('m' as u8);
    v.push('a' as u8);
    v.push('n' as u8);
    v.push('d' as u8);
    v.push('s' as u8);
    v.push('/' as u8);
    v.push('v' as u8);
    v.push('i' as u8);
    v.push('s' as u8);
    v.push('i' as u8);
    v.push('b' as u8);
    v.push('l' as u8);
    v.push('e' as u8);
    proof {
        assert(v@ =~= visible_path());
    }
    v
}

/// The bytes every scheme-forward target starts with.
pub fn scheme_prefix_bytes() -> (r: Vec<u8>)
    ensures
        r@ == scheme_prefix(),
{
    let mut v: Vec<u8> = Vec::new();
    v.push('/' as u8);
    v.push('c' as u8);
    v.push('o' as u8);
    v.push('m' as u8);
    v.push('m' as u8);
    v.push('a' as u8);
    v.push('n' as u8);
    v.push('d' as u8);
    v.push('s' as u8);
    v.push('/' as u8);
    v.push('s' as u8);
    v.push('c' as u8);
    v.push('h' as u8);
    v.push('e' as u8);
    v.push('m' as u8);
    v.push('e' as u8);
    v.push('?' as u8);
    v.push('p' as u8);
    v.push('a' as u8);
    v.push('r' as u8);
    v.push('a' as u8);
    v.push('m' as u8);
    v.push('=' as u8);
    proof {
        assert(v@ =~= scheme_prefix());
    }
    v
}

/// The bytes of the reply body `ok`.
pub fn ok_body_bytes() -> (r: Vec<u8>)
    ensures
        r@ == ok_body(),
{
    let mut v: Vec<u8> = Vec::new();
    v.push('o' as u8);
    v.push('k' as u8);
    proof {
        assert(v@ =~= ok_body());
    }
    v
}

/// Whether a reply body is exactly `ok` — the only answer that confirms a
/// live primary behind the control port.
pub fn is_ok_body(body: &Vec<u8>) -> (r: bool)
    ensures
        r == (body@ == ok_body()),
{
    let ok = ok_body_bytes();
    bytes_eq(body, &ok)
}

/// Append the decimal digits of a number.
fn push_decimal(n: u16, out: &mut Vec<u8>)
    ensures
        final(out)@ == old(out)@ + decimal_digits(n as nat),
    decreases n,
{
    if n < 10 {
        out.push(('0' as u8) + (n as u8));
        proof {
            assert(out@ =~= old(out)@ + decimal_digits(n as nat));
        }
    } else {
        push_decimal(n / 10, out);
        out.push(('0' as u8) + ((n % 10) as u8));
        proof {
            assert(out@ =~= old(out)@ + decimal_digits(n as nat));
        }
    }
}

/// The full URL of a request target on the control port.
pub fn command_url(port: u16, target: &Vec<u8>) -> (r: Vec<u8>)
    ensures
        r@ == url_model(port, target@),
{
    let mut v: Vec<u8> = Vec::new();
    v.push('h' as u8);
    v.push('t' as u8);
    v.push('t' as u8);
    v.push('p' as u8);
    v.push(':' as u8);
    v.push('/' as u8);
    v.push('/' as u8);
    v.push('1' as u8);
    v.push('2' as u8);
    v.push('7' as u8);
    v.push('.' as u8);
    v.push('0' as u8);
    v.push('.' as u8);
    v.push('0' as u8);
    v.push('.' as u8);
    v.push('1' as u8);
    v.push(':' as u8);
    proof {
        assert(v@ =~= url_prefix());
    }
    push_decimal(port, &mut v);
    let mut i: usize = 0;
    while i < target.len()
        invariant
            i <= target.len(),
            v@ == url_prefix() + decimal_digits(port as nat) + target@.subrange(0, i as int),
        decreases target.len() - i,
    {
        v.push(target[i]);
        proof {
            assert(v@ =~= url_prefix() + decimal_digits(port as nat) + target@.subrange(
                0,
                i as int + 1,
            ));
        }
        i = i + 1;
    }
    proof {
        assert(target@.subrange(0, target@.len() as int) =~= target@);
    }
    v
}

/// The URL a secondary pings to confirm a live primary.
pub fn ping_url(port: u16) -> (r: Vec<u8>)
    ensures
        r@ == url_model(port, ping_path()),
{
    let target = ping_path_bytes();
    command_url(port, &target)
}

/// The scheme-forward target carrying a payload.
pub fn scheme_request_target(payload: &Vec<u8>) -> (r: Vec<u8>)
    ensures
        r@ == scheme_target_model(payload@),
{
    let mut v = scheme_prefix_bytes();
    let enc = percent_encode(payload);
    let mut i: usize = 0;
    while i < enc.len()
        invariant
            i <= enc.len(),
            enc@ == encoded(payload@),
            v@ == scheme_prefix() + enc@.subrange(0, i as int),
        decreases enc.len() - i,
    {
        v.push(enc[i]);
        proof {
            assert(v@ =~= scheme_prefix() + enc@.subrange(0, i as int + 1));
        }
        i = i + 1;
    }
    proof {
        assert(enc@.subrange(0, enc@.len() as int) =~= enc@);
        assert(v@ =~= scheme_prefix() + encoded(payload@));
    }
    v
}

/// The target a secondary forwards: the scheme target of the second launch
/// argument when one is present, the show target otherwise.
pub fn forward_request_target(args: &Vec<Vec<u8>>) -> (r: Vec<u8>)
    ensures
        r@ == forward_target_model(args.deep_view()),
{
    proof {
        assert(args.deep_view().len() == args@.len());
    }
    if args.len() > 1 {
        let r = scheme_request_target(&args[1]);
        proof {
            assert(args.deep_view()[1] == args@[1]@);
        }
        r
    } else {
        visible_path_bytes()
    }
}

/// Read a request target back into the command it carries, or nothing for a
/// target outside the control plane.
pub fn parse_request_target(t: &Vec<u8>) -> (r: Option<ControlCommand>)
    ensures
        match r {
            Some(c) => parse_target_model(t@) == Some(c@),
            None => parse_target_model(t@) is None,
        },
{
    let ping = ping_path_bytes();
    if bytes_eq(t, &ping) {
        return Some(ControlCommand::Ping);
    }
    let visible = visible_path_bytes();
    if bytes_eq(t, &visible) {
        return Some(ControlCommand::ShowVisible);
    }
    let prefix = scheme_prefix_bytes();
    if !bytes_have_prefix(t, &prefix) {
        return None;
    }
    let mut query: Vec<u8> = Vec::new();
    let mut i: usize = prefix.len();
    while i < t.len()
        invariant
            scheme_prefix().len() <= i <= t@.len(),
            query@ == t@.subrange(scheme_prefix().len() as int, i as int),
        decreases t.len() - i,
    {
        query.push(t[i]);
        proof {
            assert(query@ =~= t@.subrange(scheme_prefix().len() as int, i as int + 1));
        }
        i = i + 1;
    }
    proof {
        assert(query@ =~= t@.skip(scheme_prefix().len() as int));
    }
    match percent_decode(&query) {
        Some(payload) => Some(ControlCommand::HandleScheme { payload }),
        None => None,
    }
}

/// What a GET request line starts with: `GET` and one space.
pub open spec fn get_marker() -> Seq<u8> {
    seq![('G' as u8), ('E' as u8), ('T' as u8), (' ' as u8)]
}

/// Whether a byte ends a request target: the space before the protocol
/// version, or a line break.
pub open spec fn is_target_delim(b: u8) -> bool {
    b == (' ' as u8) || b == ('\r' as u8) || b == ('\n' as u8)
}

/// The position of the first byte that ends a target, if any.
pub open spec fn first_delim(s: Seq<u8>) -> Option<nat>
    decreases s.len(),
{
    if s.len() == 0 {
        None
    } else if is_target_delim(s[0]) {
        Some(0)
    } else {
        match first_delim(s.skip(1)) {
            Some(i) => Some(i + 1),
            None => None,
        }
    }
}

/// The request target of a GET request, as the server reads it off the
/// wire: the bytes between `GET ` and the next space or line break. Any
/// other request carries no target for this subsystem.
pub open spec fn request_target_model(req: Seq<u8>) -> Option<Seq<u8>> {
    if req.len() >= get_marker().len() && req.subrange(0, get_marker().len() as int)
        == get_marker() {
        match first_delim(req.skip(get_marker().len() as int)) {
            Some(i) => Some(req.skip(get_marker().len() as int).subrange(0, i as int)),
            None => None,
        }
    } else {
        None
    }
}

/// A delimiter at `i` with none before it is the first one.
proof fn lemma_first_delim_at(s: Seq<u8>, i: int)
    requires
        0 <= i < s.len(),
        is_target_delim(s[i]),
        forall|j: int| 0 <= j < i ==> !is_target_delim(s[j]),
    ensures
        first_delim(s) == Some(i as nat),
    decreases i,
{
    if i > 0 {
        assert(forall|j: int| 0 <= j < i - 1 ==> s.skip(1)[j] == s[j + 1]);
        lemma_first_delim_at(s.skip(1), i - 1);
    }
}

/// No delimiter anywhere means no first one.
proof fn lemma_first_delim_none(s: Seq<u8>)
    requires
        forall|j: int| 0 <= j < s.len() ==> !is_target_delim(s[j]),
    ensures
        first_delim(s) is None,
    decreases s.len(),
{
    if s.len() > 0 {
        assert(forall|j: int| 0 <= j < s.skip(1).len() ==> s.skip(1)[j] == s[j + 1]);
        lemma_first_delim_none(s.skip(1));
    }
}

/// Read the request target off a GET request line, or nothing for any
/// other request.
pub fn request_line_target(req: &Vec<u8>) -> (r: Option<Vec<u8>>)
    ensures
        match r {
            Some(t) => request_target_model(req@) == Some(t@),
            None => request_target_model(req@) is None,
        },
{
    let mut marker: Vec<u8> = Vec::new();
    marker.push('G' as u8);
    marker.push('E' as u8);
    marker.push('T' as u8);
    marker.push(' ' as u8);
    proof {
        assert(marker@ =~= get_marker());
    }
    if !bytes_have_prefix(req, &marker) {
        return None;
    }
    let ghost rest = req@.skip(get_marker().len() as int);
    let mut target: Vec<u8> = Vec::new();
    let mut i: usize = 4;
    while i < req.len()
        invariant
            4 <= i <= req@.len(),
            rest == req@.skip(4),
            req@.subrange(0, get_marker().len() as int) == get_marker(),
            forall|j: int| 0 <= j < i - 4 ==> !is_target_delim(rest[j]),
            target@ == rest.subrange(0, i - 4),
        decreases req.len() - i,
    {
        let b = req[i];
        proof {
            assert(rest[i - 4] == req@[i as int]);
        }
        if b == (' ' as u8) || b == ('\r' as u8) || b == ('\n' as u8) {
            proof {
                lemma_first_delim_at(rest, i - 4);
            }
            return Some(target);
        }
        target.push(b);
        proof {
            assert(target@ =~= rest.subrange(0, i - 4 + 1));
        }
        i = i + 1;
    }
    proof {
        assert(rest.len() == req@.len() - 4);
        lemma_first_delim_none(rest);
    }
    None
}

/// Law: a scheme-forward target built for any payload parses back to a
/// scheme command carrying exactly that payload.
pub proof fn lemma_scheme_target_roundtrip(payload: Seq<u8>)
    ensures
        parse_target_model(scheme_target_model(payload)) == Some(
            CommandModel::HandleScheme { payload },
        ),
{
    let t = scheme_target_model(payload);
    assert(t.len() >= scheme_prefix().len());
    assert(t.len() != ping_path().len());
    assert(t != ping_path());
    assert(t.len() != visible_path().len());
    assert(t != visible_path());
    assert(t.subrange(0, scheme_prefix().len() as int) =~= scheme_prefix());
    assert(t.skip(scheme_prefix().len() as int) =~= encoded(payload));
    crate::percent::lemma_decode_inverts_encode(payload);
}

/// Law: whatever launch arguments a secondary carries, the target it
/// forwards parses back to the command owed to those arguments — the second
/// argument as a scheme payload when one is present, a plain show request
/// otherwise.
pub proof fn lemma_forward_roundtrip(args: Seq<Seq<u8>>)
    ensures
        args.len() > 1 ==> parse_target_model(forward_target_model(args)) == Some(
            CommandModel::HandleScheme { payload: args[1] },
        ),
        args.len() <= 1 ==> parse_target_model(forward_target_model(args)) == Some(
            CommandModel::ShowVisible,
        ),
{
    if args.len() > 1 {
        lemma_scheme_target_roundtrip(args[1]);
    } else {
        assert(visible_path() != ping_path());
    }
}

} // verus!
