use vstd::prelude::*;
use crate::color::{digit_text, hex_digits};
use vstd::string::{StrSliceExecFns, StringExecFns, StringSliceAdditionalSpecFns};
use vstd::arithmetic::div_mod::{lemma_fundamental_div_mod, lemma_div_denominator, lemma_mod_pos_bound};

verus! {

broadcast use vstd::std_specs::vec::axiom_vec_index_decreases;

/// Length of the fixed part of a frame: magic, payload length, message type.
pub const HEADER_LEN: usize = 14;

/// Message type that runs a command.
pub const RUN_COMMAND: u32 = 0;

/// Message type that asks for the window tree.
pub const GET_TREE: u32 = 4;

/// The magic string "i3-ipc" that opens every frame.
pub open spec fn magic() -> Seq<u8> {
    seq![105u8, 51u8, 45u8, 105u8, 112u8, 99u8]
}

/// The four bytes of `x`, least significant first.
pub open spec fn le_bytes(x: u32) -> Seq<u8> {
    seq![
        (x % 256) as u8,
        ((x / 256) % 256) as u8,
        ((x / 65536) % 256) as u8,
        (x / 16777216) as u8,
    ]
}

/// The number that four bytes give, least significant first.
pub open spec fn le_value(b: Seq<u8>) -> u32 {
    (b[0] as int + 256 * b[1] as int + 65536 * b[2] as int + 16777216 * b[3] as int) as u32
}

/// A frame of message type `t` around `payload`.
pub open spec fn frame(t: u32, payload: Seq<u8>) -> Seq<u8> {
    magic() + le_bytes(payload.len() as u32) + le_bytes(t) + payload
}

/// Why a byte sequence is not one frame.
#[derive(Clone, Copy, Debug, PartialEq, Eq, Structural)]
pub enum IpcError {
    /// Fewer bytes than the header and the declared payload take.
    Truncated,
    /// The frame does not open with the magic string.
    BadMagic,
    /// Bytes follow the declared payload.
    TrailingBytes,
}

/// What a byte sequence decodes to: the message type and the payload, or why it is
/// not one frame.
pub open spec fn decoded(b: Seq<u8>) -> Result<(u32, Seq<u8>), IpcError> {
    if b.len() < 14 {
        Err(IpcError::Truncated)
    } else if b.subrange(0, 6) != magic() {
        Err(IpcError::BadMagic)
    } else {
        let n = le_value(b.subrange(6, 10));
        if b.len() < 14 + n {
            Err(IpcError::Truncated)
        } else if b.len() > 14 + n {
            Err(IpcError::TrailingBytes)
        } else {
            Ok((le_value(b.subrange(10, 14)), b.subrange(14, b.len() as int)))
        }
    }
}

/// One decoded frame.
pub struct Frame {
    pub msg_type: u32,
    pub payload: Vec<u8>,
}

proof fn lemma_le_round_trip(x: u32)
    ensures
        le_value(le_bytes(x)) == x,
{
    let xi = x as int;
    lemma_fundamental_div_mod(xi, 256);
    lemma_fundamental_div_mod(xi / 256, 256);
    lemma_fundamental_div_mod(xi / 65536, 256);
    lemma_div_denominator(xi, 256, 256);
    lemma_div_denominator(xi, 65536, 256);
    lemma_fundamental_div_mod(xi, 16777216);
    lemma_mod_pos_bound(xi, 16777216);
}

fn push_le(v: &mut Vec<u8>, x: u32)
    ensures
        final(v)@ == old(v)@ + le_bytes(x),
{
    v.push((x % 256) as u8);
    v.push(((x / 256) % 256) as u8);
    v.push(((x / 65536) % 256) as u8);
    v.push((x / 16777216) as u8);
    assert(final(v)@ =~= old(v)@ + le_bytes(x));
}

fn read_le(b: &Vec<u8>, at: usize) -> (r: u32)
    requires
        at + 4 <= b@.len(),
    ensures
        r == le_value(b@.subrange(at as int, at + 4)),
{
    let _len = b.len();
    let ghost s = b@.subrange(at as int, at + 4);
    assert(s[0] == b@[at as int] && s[1] == b@[at + 1] && s[2] == b@[at + 2] && s[3] == b@[at + 3]);
    let v: u64 = b[at] as u64 + 256 * (b[at + 1] as u64) + 65536 * (b[at + 2] as u64) + 16777216 * (
    b[at + 3] as u64);
    v as u32
}

/// Encodes one frame: the magic string, the payload's length and the message type as
/// four little-endian bytes each, then the payload.
pub fn encode(msg_type: u32, payload: &Vec<u8>) -> (r: Vec<u8>)
    requires
        payload@.len() <= u32::MAX,
    ensures
        r@ == frame(msg_type, payload@),
{
    let mut r: Vec<u8> = Vec::new();
    r.push(105u8);
    r.push(51u8);
    r.push(45u8);
    r.push(105u8);
    r.push(112u8);
    r.push(99u8);
    assert(r@ =~= magic());
    push_le(&mut r, payload.len() as u32);
    push_le(&mut r, msg_type);
    let mut i: usize = 0;
    let ghost head = r@;
    while i < payload.len()
        invariant
            i <= payload@.len(),
            r@ == head + payload@.subrange(0, i as int),
        decreases payload@.len() - i,
    {
        r.push(payload[i]);
        i = i + 1;
        assert(r@ =~= head + payload@.subrange(0, i as int));
    }
    assert(payload@.subrange(0, i as int) =~= payload@);
    r
}

/// The payload length and message type that a header announces.
pub fn decode_header(header: &Vec<u8>) -> (r: Result<(u32, u32), IpcError>)
    ensures
        header@.len() < 14 ==> r == Err::<(u32, u32), IpcError>(IpcError::Truncated),
        header@.len() >= 14 && header@.subrange(0, 6) != magic() ==> r == Err::<(u32, u32), IpcError>(
            IpcError::BadMagic,
        ),
        header@.len() >= 14 && header@.subrange(0, 6) == magic() ==> r == Ok::<(u32, u32), IpcError>(
            (le_value(header@.subrange(6, 10)), le_value(header@.subrange(10, 14))),
        ),
{
    if header.len() < HEADER_LEN {
        return Err(IpcError::Truncated);
    }
    if !(header[0] == 105u8 && header[1] == 51u8 && header[2] == 45u8 && header[3] == 105u8
        && header[4] == 112u8 && header[5] == 99u8) {
        proof {
            if header@.subrange(0, 6) == magic() {
                assert(header@.subrange(0, 6)[0] == header@[0]);
                assert(header@.subrange(0, 6)[1] == header@[1]);
                assert(header@.subrange(0, 6)[2] == header@[2]);
                assert(header@.subrange(0, 6)[3] == header@[3]);
                assert(header@.subrange(0, 6)[4] == header@[4]);
                assert(header@.subrange(0, 6)[5] == header@[5]);
            }
        }
        return Err(IpcError::BadMagic);
    }
    assert(header@.subrange(0, 6) =~= magic());
    Ok((read_le(header, 6), read_le(header, 10)))
}

/// Decodes one whole frame.
pub fn decode(bytes: &Vec<u8>) -> (r: Result<Frame, IpcError>)
    ensures
        match (r, decoded(bytes@)) {
            (Ok(f), Ok((t, p))) => f.msg_type == t && f.payload@ == p,
            (Err(e), Err(d)) => e == d,
            _ => false,
        },
{
    let (n, t) = match decode_header(bytes) {
        Ok(h) => h,
        Err(e) => {
            return Err(e);
        },
    };
    if bytes.len() - HEADER_LEN < n as usize {
        return Err(IpcError::Truncated);
    }
    if bytes.len() - HEADER_LEN > n as usize {
        return Err(IpcError::TrailingBytes);
    }
    let mut payload: Vec<u8> = Vec::new();
    let mut i: usize = HEADER_LEN;
    while i < bytes.len()
        invariant
            HEADER_LEN <= i <= bytes@.len(),
            payload@ == bytes@.subrange(14, i as int),
        decreases bytes@.len() - i,
    {
        payload.push(bytes[i]);
        i = i + 1;
        assert(payload@ =~= bytes@.subrange(14, i as int));
    }
    Ok(Frame { msg_type: t, payload })
}

/// Decoding an encoded frame gives back its message type and payload.
pub proof fn lemma_frame_round_trip(msg_type: u32, payload: Seq<u8>)
    requires
        payload.len() <= u32::MAX,
    ensures
        decoded(frame(msg_type, payload)) == Ok::<(u32, Seq<u8>), IpcError>((msg_type, payload)),
{
    let b = frame(msg_type, payload);
    assert(b.subrange(0, 6) =~= magic());
    assert(b.subrange(6, 10) =~= le_bytes(payload.len() as u32));
    assert(b.subrange(10, 14) =~= le_bytes(msg_type));
    assert(b.subrange(14, b.len() as int) =~= payload);
    lemma_le_round_trip(payload.len() as u32);
    lemma_le_round_trip(msg_type);
}

/// The decimal digit `d`.
pub open spec fn digit_char(d: nat) -> char {
    seq!['0', '1', '2', '3', '4', '5', '6', '7', '8', '9'][d as int]
}

/// The decimal digits of `n`, without leading zeros.
pub open spec fn decimal_digits(n: nat) -> Seq<char>
    decreases n,
{
    if n < 10 {
        seq![digit_char(n)]
    } else {
        decimal_digits(n / 10) + seq![digit_char(n % 10)]
    }
}

/// `x` written in decimal, with a minus sign when negative.
pub open spec fn decimal(x: int) -> Seq<char> {
    if x < 0 {
        seq!['-'] + decimal_digits((-x) as nat)
    } else {
        decimal_digits(x as nat)
    }
}

/// The decimal digits of `n`.
fn digits_text(n: u64) -> (r: String)
    ensures
        r@ == decimal_digits(n as nat),
{
    let mut m: u64 = n;
    let mut acc = String::from_str(digit_text((m % 10) as u8));
    proof {
        assert(hex_digits()[(n % 10) as int] == digit_char((n % 10) as nat));
        if n < 10 {
            assert(decimal_digits(n as nat) =~= acc@);
        } else {
            assert(decimal_digits(n as nat) =~= decimal_digits((n / 10) as nat) + acc@);
        }
    }
    m = m / 10;
    while m > 0
        invariant
            m == 0 ==> decimal_digits(n as nat) == acc@,
            m > 0 ==> decimal_digits(n as nat) == decimal_digits(m as nat) + acc@,
        decreases m,
    {
        let d = digit_text((m % 10) as u8);
        proof {
            assert(hex_digits()[(m % 10) as int] == digit_char((m % 10) as nat));
            if m < 10 {
                assert(decimal_digits(m as nat) == seq![digit_char(m as nat)]);
            } else {
                assert(decimal_digits(m as nat) == decimal_digits((m / 10) as nat) + seq![digit_char((m % 10) as nat)]);
            }
        }
        acc = String::from_str(d).concat(acc.as_str());
        m = m / 10;
        proof {
            if m == 0 {
                assert(decimal_digits(n as nat) =~= acc@);
            } else {
                assert(decimal_digits(n as nat) =~= decimal_digits(m as nat) + acc@);
            }
        }
    }
    acc
}

/// `x` written in decimal.
fn decimal_text(x: i64) -> (r: String)
    ensures
        r@ == decimal(x as int),
{
    if x < 0 {
        let magnitude: u64 = (-(x + 1)) as u64 + 1;
        proof {
            reveal_strlit("-");
        }
        let r = String::from_str("-").concat(digits_text(magnitude).as_str());
        assert(r@ =~= decimal(x as int));
        r
    } else {
        digits_text(x as u64)
    }
}

/// The command that runs `cmd` through the window manager.
pub open spec fn exec_text(cmd: Seq<char>) -> Seq<char> {
    "exec "@ + cmd
}

/// The command that turns fullscreen on or off, for one node or for the focused one.
pub open spec fn fullscreen_text(enable: bool, node_id: Option<i64>) -> Seq<char> {
    let scope = match node_id {
        Some(id) => "[con_id="@ + decimal(id as int) + "] "@,
        None => Seq::empty(),
    };
    scope + "fullscreen "@ + if enable {
        "enable"@
    } else {
        "disable"@
    }
}

/// The command that runs `cmd` through the window manager.
pub fn exec_command(cmd: &str) -> (r: String)
    ensures
        r@ == exec_text(cmd@),
{
    proof {
        reveal_strlit("exec ");
    }
    String::from_str("exec ").concat(cmd)
}

/// The command that turns fullscreen on or off, scoped to a node when an id is given.
pub fn fullscreen_command(enable: bool, node_id: Option<i64>) -> (r: String)
    ensures
        r@ == fullscreen_text(enable, node_id),
{
    proof {
        reveal_strlit("[con_id=");
        reveal_strlit("] ");
        reveal_strlit("fullscreen ");
        reveal_strlit("enable");
        reveal_strlit("disable");
    }
    let scope = match node_id {
        Some(id) => String::from_str("[con_id=").concat(decimal_text(id).as_str()).concat("] "),
        None => String::new(),
    };
    let action = if enable {
        "enable"
    } else {
        "disable"
    };
    let r = scope.concat("fullscreen ").concat(action);
    assert(r@ =~= fullscreen_text(enable, node_id));
    r
}

/// The frame that carries a text payload, in UTF-8.
pub fn text_frame(msg_type: u32, text: &str) -> (r: Vec<u8>)
    requires
        text.spec_bytes().len() <= u32::MAX,
    ensures
        r@ == frame(msg_type, text.spec_bytes()),
{
    let payload = text.as_bytes_vec();
    encode(msg_type, &payload)
}

/// A container of the window manager's tree.
pub struct Node {
    pub id: i64,
    pub name: Option<String>,
    pub focused: bool,
    /// 0 for none, 1 for the output, 2 for global.
    pub fullscreen_mode: Option<u8>,
    pub nodes: Vec<Node>,
    pub floating_nodes: Vec<Node>,
}

/// The first focused node of the tree under `n`, searching the node itself, then its
/// tiled children, then its floating children, depth first.
pub open spec fn focused_node(n: Node) -> Option<Node>
    decreases n, 0int,
{
    if n.focused {
        Some(n)
    } else {
        match focused_among(n.nodes, 0) {
            Some(f) => Some(f),
            None => focused_among(n.floating_nodes, 0),
        }
    }
}

/// The first focused node in the trees of `v` from index `i` on.
pub open spec fn focused_among(v: Vec<Node>, i: int) -> Option<Node>
    decreases v, v.len() - i,
{
    if i < 0 || i >= v.len() {
        None
    } else {
        match focused_node(v[i]) {
            Some(f) => Some(f),
            None => focused_among(v, i + 1),
        }
    }
}

fn find_focused_among(v: &Vec<Node>) -> (r: Option<&Node>)
    ensures
        r matches Some(f) ==> focused_among(*v, 0) == Some(*f),
        r is None ==> focused_among(*v, 0) is None,
    decreases *v, 1int,
{
    let mut i: usize = 0;
    while i < v.len()
        invariant
            i <= v@.len(),
            focused_among(*v, 0) == focused_among(*v, i as int),
        decreases v@.len() - i,
    {
        match find_focused_node(&v[i]) {
            Some(f) => {
                return Some(f);
            },
            None => {},
        }
        i = i + 1;
    }
    None
}

/// The first focused node under `node`, depth first: the node, its tiled children,
/// then its floating children.
pub fn find_focused_node(node: &Node) -> (r: Option<&Node>)
    ensures
        r matches Some(f) ==> focused_node(*node) == Some(*f),
        r is None ==> focused_node(*node) is None,
    decreases *node, 0int,
{
    if node.focused {
        return Some(node);
    }
    match find_focused_among(&node.nodes) {
        Some(f) => Some(f),
        None => find_focused_among(&node.floating_nodes),
    }
}

/// The id of the focused node, when it is fullscreen.
pub open spec fn focused_fullscreen_id(tree: Node) -> Option<i64> {
    match focused_node(tree) {
        Some(n) => match n.fullscreen_mode {
            Some(m) => if m > 0 {
                Some(n.id)
            } else {
                None
            },
            None => None,
        },
        None => None,
    }
}

/// The id of the focused node of a tree, when that node is fullscreen.
pub fn get_focused_fullscreen_node_id(tree: &Node) -> (r: Option<i64>)
    ensures
        r == focused_fullscreen_id(*tree),
{
    match find_focused_node(tree) {
        Some(node) => match node.fullscreen_mode {
            Some(m) => if m > 0 {
                Some(node.id)
            } else {
                None
            },
            None => None,
        },
        None => None,
    }
}

} // verus!
