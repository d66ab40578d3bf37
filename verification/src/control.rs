//! Control plane: the handshake messages, their framing, and the parameters of a
//! transfer.
//!
//! A message is framed as a little-endian 32-bit length and that many bytes.

use crate::bytes::{get_u32, u32_bytes};
use crate::error::{IoError, IoKind};
use crate::protocol::DEFAULT_BLOCK_SIZE;
use crate::rate::{RateConfig, RateMode};
use crate::text::{chars_of, decimal, joined, position_after_last, position_of_first, string_between};
use base64::Engine;
use vstd::prelude::*;

verus! {

/// The client pushes an object to the server.
pub const MODE_SEND: &'static str = "send";

/// The client pulls an object from the server.
pub const MODE_RECV: &'static str = "recv";

/// Longest control message that is read.
pub const MAX_MESSAGE: u32 = 1_048_576;

/// The client's opening control message.
#[derive(Debug)]
pub struct Hello {
    pub version: i64,
    pub mode: String,
    pub name: String,
    pub size: i64,
    pub block_size: i64,
    pub rate_bps: u64,
    pub max_bps: u64,
    pub adaptive: bool,
    pub alpha_bps: u64,
    pub crc32c: u32,
    /// What an earlier transfer learned of the path; zero where nothing was.
    pub warm_rate_bps: u64,
    pub warm_srtt_net_us: u64,
    pub warm_base_rtt_us: u64,
    pub encrypt: bool,
    pub ciphers: Option<Vec<String>>,
    pub pub_key: Option<Vec<u8>>,
    /// Proof of possession of the token, binding the request fields and the
    /// client's ephemeral public key. Absent when the client is not
    /// authenticating. The token itself is never sent.
    pub auth_mac: Option<Vec<u8>>,
}

/// The server's reply.
#[derive(Debug)]
pub struct Ack {
    pub ok: bool,
    pub err: String,
    pub udp_port: i64,
    pub session: u32,
    pub size: i64,
    pub crc32c: u32,
    pub name: String,
    pub encrypt: bool,
    pub cipher: String,
    pub pub_key: Option<Vec<u8>>,
    /// Set when the server requires a token and the client did not present a
    /// valid proof.
    pub auth_required: bool,
    /// The server's reply MAC, authenticating the server and binding the session
    /// id and the server's ephemeral public key.
    pub auth_mac: Option<Vec<u8>>,
}

/// An optional byte string.
pub open spec fn opt_bytes(o: Option<Vec<u8>>) -> Option<Seq<u8>> {
    match o {
        Some(v) => Some(v@),
        None => None,
    }
}

/// An optional byte string, where none counts as the empty one.
pub open spec fn bytes_or_empty(o: Option<Vec<u8>>) -> Seq<u8> {
    match o {
        Some(v) => v@,
        None => Seq::empty(),
    }
}

/// The bytes of an optional byte string, none for none.
pub fn slice_or_empty(o: &Option<Vec<u8>>) -> (r: &[u8])
    ensures
        r@ == bytes_or_empty(*o),
{
    match o {
        Some(v) => v.as_slice(),
        None => {
            let empty: &[u8] = &[];
            assert(empty@ =~= Seq::<u8>::empty());
            empty
        },
    }
}

/// What a hello says.
pub struct HelloView {
    pub version: i64,
    pub mode: Seq<char>,
    pub name: Seq<char>,
    pub size: i64,
    pub block_size: i64,
    pub rate_bps: u64,
    pub max_bps: u64,
    pub adaptive: bool,
    pub alpha_bps: u64,
    pub crc32c: u32,
    pub warm_rate_bps: u64,
    pub warm_srtt_net_us: u64,
    pub warm_base_rtt_us: u64,
    pub encrypt: bool,
    pub ciphers: Option<Seq<String>>,
    pub pub_key: Option<Seq<u8>>,
    pub auth_mac: Option<Seq<u8>>,
}

impl View for Hello {
    type V = HelloView;

    open spec fn view(&self) -> HelloView {
        HelloView {
            version: self.version,
            mode: self.mode@,
            name: self.name@,
            size: self.size,
            block_size: self.block_size,
            rate_bps: self.rate_bps,
            max_bps: self.max_bps,
            adaptive: self.adaptive,
            alpha_bps: self.alpha_bps,
            crc32c: self.crc32c,
            warm_rate_bps: self.warm_rate_bps,
            warm_srtt_net_us: self.warm_srtt_net_us,
            warm_base_rtt_us: self.warm_base_rtt_us,
            encrypt: self.encrypt,
            ciphers: match self.ciphers {
                Some(c) => Some(c@),
                None => None,
            },
            pub_key: opt_bytes(self.pub_key),
            auth_mac: opt_bytes(self.auth_mac),
        }
    }
}

/// What an ack says.
pub struct AckView {
    pub ok: bool,
    pub err: Seq<char>,
    pub udp_port: i64,
    pub session: u32,
    pub size: i64,
    pub crc32c: u32,
    pub name: Seq<char>,
    pub encrypt: bool,
    pub cipher: Seq<char>,
    pub pub_key: Option<Seq<u8>>,
    pub auth_required: bool,
    pub auth_mac: Option<Seq<u8>>,
}

impl View for Ack {
    type V = AckView;

    open spec fn view(&self) -> AckView {
        AckView {
            ok: self.ok,
            err: self.err@,
            udp_port: self.udp_port,
            session: self.session,
            size: self.size,
            crc32c: self.crc32c,
            name: self.name@,
            encrypt: self.encrypt,
            cipher: self.cipher@,
            pub_key: opt_bytes(self.pub_key),
            auth_required: self.auth_required,
            auth_mac: opt_bytes(self.auth_mac),
        }
    }
}

/// An ack that says nothing.
pub open spec fn blank_ack() -> AckView {
    AckView {
        ok: false,
        err: Seq::empty(),
        udp_port: 0,
        session: 0,
        size: 0,
        crc32c: 0,
        name: Seq::empty(),
        encrypt: false,
        cipher: Seq::empty(),
        pub_key: None,
        auth_required: false,
        auth_mac: None,
    }
}

impl Default for Ack {
    fn default() -> (r: Self)
        ensures
            r@ == blank_ack(),
    {
        Ack {
            ok: false,
            err: String::new(),
            udp_port: 0,
            session: 0,
            size: 0,
            crc32c: 0,
            name: String::new(),
            encrypt: false,
            cipher: String::new(),
            pub_key: None,
            auth_required: false,
            auth_mac: None,
        }
    }
}

impl Default for Hello {
    fn default() -> (r: Self)
        ensures
            r@ == (HelloView {
                version: 0,
                mode: Seq::empty(),
                name: Seq::empty(),
                size: 0,
                block_size: 0,
                rate_bps: 0,
                max_bps: 0,
                adaptive: false,
                alpha_bps: 0,
                crc32c: 0,
                warm_rate_bps: 0,
                warm_srtt_net_us: 0,
                warm_base_rtt_us: 0,
                encrypt: false,
                ciphers: None,
                pub_key: None,
                auth_mac: None,
            }),
    {
        Hello {
            version: 0,
            mode: String::new(),
            name: String::new(),
            size: 0,
            block_size: 0,
            rate_bps: 0,
            max_bps: 0,
            adaptive: false,
            alpha_bps: 0,
            crc32c: 0,
            warm_rate_bps: 0,
            warm_srtt_net_us: 0,
            warm_base_rtt_us: 0,
            encrypt: false,
            ciphers: None,
            pub_key: None,
            auth_mac: None,
        }
    }
}

// --- byte strings in messages -----------------------------------------------

/// The standard, padded base64 text of a byte string.
pub uninterp spec fn base64_text(bytes: Seq<u8>) -> Seq<char>;

/// The byte string of a standard, padded base64 text; nothing where the text is
/// not one.
pub uninterp spec fn base64_bytes(text: Seq<char>) -> Option<Seq<u8>>;

/// Encodes with `base64`'s `STANDARD` engine. What it encodes it also decodes.
/// The text must fit in memory.
#[verifier::external_body]
fn base64_encode(bytes: &[u8]) -> (r: String)
    requires
        bytes@.len() <= isize::MAX / 2,
    ensures
        r@ == base64_text(bytes@),
        base64_bytes(r@) == Some(bytes@),
{
    base64::engine::general_purpose::STANDARD.encode(bytes)
}

/// Decodes with `base64`'s `STANDARD` engine. The text of an error is that of
/// `base64::DecodeError`, and nothing is claimed of it.
#[verifier::external_body]
fn base64_decode(text: &str) -> (r: Result<Vec<u8>, String>)
    ensures
        match r {
            Ok(v) => base64_bytes(text@) == Some(v@),
            Err(_) => base64_bytes(text@) is None,
        },
{
    base64::engine::general_purpose::STANDARD.decode(text.as_bytes()).map_err(|e| e.to_string())
}

/// An optional byte string as the text that stands for it in a message.
pub fn encode_bytes(v: &Option<Vec<u8>>) -> (r: Option<String>)
    requires
        bytes_or_empty(*v).len() <= isize::MAX / 2,
    ensures
        match *v {
            None => r is None,
            Some(b) => r matches Some(s) && s@ == base64_text(b@) && base64_bytes(s@) == Some(b@),
        },
{
    match v {
        Some(b) => Some(base64_encode(b.as_slice())),
        None => None,
    }
}

/// The optional byte string that a text in a message stands for. A text that is
/// not base64 is an error.
pub fn decode_bytes(v: &Option<String>) -> (r: Result<Option<Vec<u8>>, String>)
    ensures
        match *v {
            None => r matches Ok(o) && o is None,
            Some(s) => match r {
                Ok(Some(b)) => base64_bytes(s@) == Some(b@),
                Ok(None) => false,
                Err(_) => base64_bytes(s@) is None,
            },
        },
{
    match v {
        Some(s) => match base64_decode(s.as_str()) {
            Ok(b) => Ok(Some(b)),
            Err(e) => Err(e),
        },
        None => Ok(None),
    }
}

// --- framing ----------------------------------------------------------------

/// The frame of a message: its length, then the message.
pub open spec fn framed(body: Seq<u8>) -> Seq<u8> {
    crate::bytes::le32(body.len() as u32) + body
}

/// Frames a message.
pub fn frame_message(body: &[u8]) -> (r: Vec<u8>)
    ensures
        r@ == framed(body@),
{
    let len: u32 = #[verifier::truncate] (body.len() as u32);
    let mut out = u32_bytes(len);
    out.extend_from_slice(body);
    out
}

/// The length of the message behind a frame's length field. A message that is
/// too long is an error.
pub fn message_len(prefix: &[u8]) -> (r: Result<usize, IoError>)
    requires
        prefix@.len() == 4,
    ensures
        ({
            let n = crate::bytes::le32_at(prefix@, 0);
            match r {
                Ok(len) => len == n && n <= MAX_MESSAGE,
                Err(e) => n > MAX_MESSAGE && e.kind == IoKind::Malformed && e.message@
                    == "control message too large: "@ + crate::text::dec(n as nat),
            }
        }),
{
    let n: u32 = get_u32(prefix, 0);
    if n > MAX_MESSAGE {
        return Err(
            IoError::new(
                IoKind::Malformed,
                joined("control message too large: ", decimal(n as u64).as_str()).as_str(),
            ),
        );
    }
    Ok(n as usize)
}

/// Law: a message is read back from its frame: the length field gives its
/// length, and that many bytes follow.
pub proof fn frame_round_trip(body: Seq<u8>)
    requires
        body.len() <= u32::MAX,
    ensures
        framed(body).len() == 4 + body.len(),
        crate::bytes::le32_at(framed(body), 0) == body.len(),
        framed(body).skip(4) == body,
{
    let f = framed(body);
    assert(f.subrange(0, 4) =~= crate::bytes::le32(body.len() as u32));
    crate::bytes::le32_round_trip(body.len() as u32, f, 0);
    assert(f.skip(4) =~= body);
}

// --- parameters -------------------------------------------------------------

/// User-tunable knobs shared by client and server.
#[derive(Debug, Clone, Copy, PartialEq, Eq, Structural)]
pub struct TransferParams {
    pub block_size: usize,
    pub rate_bps: u64,
    pub max_bps: u64,
    pub adaptive: bool,
    pub alpha_bps: u64,
    pub read_workers: usize,
    pub feedback_interval_us: u32,
    pub net_tick_interval_us: u32,
    pub report_interval_ms: u64,
    pub verbose: bool,
    pub encrypt: bool,
}

/// The parameters of a transfer that was given none.
pub open spec fn default_parameters() -> TransferParams {
    TransferParams {
        block_size: DEFAULT_BLOCK_SIZE,
        rate_bps: 100_000_000,
        max_bps: 10_000_000_000,
        adaptive: false,
        alpha_bps: 30_000_000,
        read_workers: 0,
        feedback_interval_us: 5000,
        net_tick_interval_us: 10000,
        report_interval_ms: 1000,
        verbose: false,
        encrypt: false,
    }
}

/// Sensible defaults.
pub fn default_params() -> (r: TransferParams)
    ensures
        r == default_parameters(),
{
    TransferParams {
        block_size: DEFAULT_BLOCK_SIZE,
        rate_bps: 100_000_000,
        max_bps: 10_000_000_000,
        adaptive: false,
        alpha_bps: 30_000_000,
        read_workers: 0,
        feedback_interval_us: 5000,
        net_tick_interval_us: 10000,
        report_interval_ms: 1000,
        verbose: false,
        encrypt: false,
    }
}

impl TransferParams {
    /// The rate configuration for a target rate.
    pub open spec fn rate_for(self, target: u64) -> RateConfig {
        RateConfig {
            mode: if self.adaptive {
                RateMode::Adaptive
            } else {
                RateMode::Fixed
            },
            target_bps: target,
            min_bps: 0,
            max_bps: self.max_bps,
            alpha: self.alpha_bps,
        }
    }

    /// The rate configuration for a target rate.
    pub fn rate_config(&self, target: u64) -> (r: RateConfig)
        ensures
            r == self.rate_for(target),
    {
        RateConfig {
            mode: if self.adaptive {
                RateMode::Adaptive
            } else {
                RateMode::Fixed
            },
            target_bps: target,
            min_bps: 0,
            max_bps: self.max_bps,
            alpha: self.alpha_bps,
        }
    }
}

// --- names ------------------------------------------------------------------

/// A path with `/` as its one separator, on a host where `\` separates too.
pub open spec fn slashed_path(p: Seq<char>, backslash: bool) -> Seq<char> {
    if backslash {
        p.map_values(
            |c: char|
                if c == '\\' {
                    '/'
                } else {
                    c
                },
        )
    } else {
        p
    }
}

/// A path with `/` as its one separator. `backslash` says whether `\` separates
/// too on this host.
pub fn slashed(p: &str, backslash: bool) -> (r: String)
    ensures
        r@ == slashed_path(p@, backslash),
{
    if !backslash {
        return p.to_owned();
    }
    let chars = chars_of(p);
    let mut out = String::new();
    let mut i: usize = 0;
    while i < chars.len()
        invariant
            i <= chars@.len(),
            chars@ == p@,
            out@ == slashed_path(chars@.take(i as int), true),
        decreases chars@.len() - i,
    {
        if chars[i] == '\\' {
            out.push('/');
        } else {
            out.push(chars[i]);
        }
        i = i + 1;
        assert(out@ =~= slashed_path(chars@.take(i as int), true));
    }
    assert(chars@.take(i as int) =~= p@);
    out
}

/// A path without the separators and "." components at its end.
pub open spec fn without_tail(p: Seq<char>) -> Seq<char>
    decreases p.len(),
{
    if p.len() > 0 && p.last() == '/' {
        without_tail(p.drop_last())
    } else if p.len() >= 2 && p.last() == '.' && p[p.len() - 2] == '/' {
        without_tail(p.drop_last())
    } else {
        p
    }
}

/// The last component of a path, possibly empty.
pub open spec fn last_component(p: Seq<char>) -> Seq<char> {
    let q = without_tail(p);
    q.skip(crate::text::after_last(q, '/'))
}

/// Whether a component names something: it is not empty and no relative step.
pub open spec fn is_name(c: Seq<char>) -> bool {
    c.len() > 0 && c != seq!['.'] && c != seq!['.', '.']
}

/// The name that a path ends in; the path itself where it does not end in one.
pub open spec fn name_of_path(p: Seq<char>) -> Seq<char> {
    let c = last_component(p);
    if is_name(c) {
        c
    } else {
        p
    }
}

/// Whether a character can name a drive.
pub open spec fn is_drive_letter(c: char) -> bool {
    'a' <= c <= 'z' || 'A' <= c <= 'Z'
}

/// How many characters the drive (`X:`) or the share (`//server/share`) takes up
/// that a path begins with.
pub open spec fn prefix_len(p: Seq<char>) -> int {
    if p.len() >= 2 && is_drive_letter(p[0]) && p[1] == ':' {
        2
    } else if p.len() >= 2 && p[0] == '/' && p[1] == '/' {
        let server = crate::text::first_of(p.skip(2), '/');
        let share = crate::text::first_of(p.skip(server + 3), '/');
        if 0 < server && server + 3 < p.len() && 0 < share {
            server + 3 + share
        } else {
            0
        }
    } else {
        0
    }
}

/// Whether a path is a verbatim one (`\\?\`): there `\` alone separates, and
/// nothing is taken out.
pub open spec fn is_verbatim(p: Seq<char>) -> bool {
    p.len() >= 4 && p[0] == '\\' && p[1] == '\\' && p[2] == '?' && p[3] == '\\'
}

/// How many characters stand before the first separator of a verbatim path, or
/// take up the drive that it begins with.
pub open spec fn verbatim_part(p: Seq<char>) -> int {
    if p.len() >= 2 && is_drive_letter(p[0]) && p[1] == ':' && (p.len() == 2 || p[2] == '\\'
        || p[2] == '/') {
        2
    } else {
        crate::text::first_of(p, '\\')
    }
}

/// How many characters the prefix of a verbatim path takes up: `\\?\` and a drive
/// or another part, or `\\?\UNC\`, a server and a share.
pub open spec fn verbatim_prefix_len(p: Seq<char>) -> int {
    if p.len() >= 8 && p[4] == 'U' && p[5] == 'N' && p[6] == 'C' && (p[7] == '\\' || p[7] == '/') {
        let server = crate::text::first_of(p.skip(8), '\\');
        let share = if server + 9 < p.len() {
            crate::text::first_of(p.skip(server + 9), '\\')
        } else {
            0
        };
        if share > 0 {
            server + 9 + share
        } else {
            server + 8
        }
    } else {
        4 + verbatim_part(p.skip(4))
    }
}

/// A text without the `c`s at its end.
pub open spec fn without_trailing(s: Seq<char>, c: char) -> Seq<char>
    decreases s.len(),
{
    if s.len() > 0 && s.last() == c {
        without_trailing(s.drop_last(), c)
    } else {
        s
    }
}

/// The last component of a verbatim path behind its prefix, possibly empty.
pub open spec fn last_verbatim(p: Seq<char>) -> Seq<char> {
    let q = without_trailing(p.skip(verbatim_prefix_len(p)), '\\');
    q.skip(crate::text::after_last(q, '\\'))
}

/// The last component of a path on a host, possibly empty. Where `\` separates, a
/// drive or a share is no part of it.
pub open spec fn host_component(p: Seq<char>, backslash: bool) -> Seq<char> {
    if !backslash {
        last_component(p)
    } else if is_verbatim(p) {
        last_verbatim(p)
    } else {
        let s = slashed_path(p, true);
        last_component(s.skip(prefix_len(s)))
    }
}

/// The name that a path ends in on a host; the path itself where it does not end
/// in one.
pub open spec fn host_name_of_path(p: Seq<char>, backslash: bool) -> Seq<char> {
    let c = host_component(p, backslash);
    if is_name(c) {
        c
    } else {
        p
    }
}

/// The name that a path ends in, if it ends in one.
fn final_name(chars: &[char]) -> (r: Option<String>)
    ensures
        match r {
            Some(s) => is_name(last_component(chars@)) && s@ == last_component(chars@),
            None => !is_name(last_component(chars@)),
        },
{
    let mut end: usize = chars.len();
    assert(chars@.take(end as int) =~= chars@);
    while end > 0 && (chars[end - 1] == '/' || (end >= 2 && chars[end - 1] == '.' && chars[end - 2]
        == '/'))
        invariant
            end <= chars@.len(),
            without_tail(chars@.take(end as int)) == without_tail(chars@),
        decreases end,
    {
        assert(chars@.take(end as int).drop_last() =~= chars@.take(end - 1));
        end = end - 1;
    }
    let ghost q = chars@.take(end as int);
    assert(without_tail(q) == q);
    let kept = vstd::slice::slice_subrange(chars, 0, end);
    assert(kept@ =~= q);
    let start: usize = position_after_last(kept, '/');
    assert(chars@.subrange(start as int, end as int) =~= q.skip(start as int));
    named_part(chars, start, end)
}

/// The name that a path ends in; the path itself where it does not end in one.
pub fn basename(p: &str) -> (r: String)
    ensures
        r@ == name_of_path(p@),
{
    let chars = chars_of(p);
    match final_name(chars.as_slice()) {
        Some(name) => name,
        None => p.to_owned(),
    }
}

/// How many characters the drive or the share takes up that a path begins with.
fn path_prefix(chars: &[char]) -> (r: usize)
    ensures
        r == prefix_len(chars@),
        r <= chars@.len(),
{
    let n: usize = chars.len();
    if n < 2 {
        return 0;
    }
    let c: char = chars[0];
    if (('a' <= c && c <= 'z') || ('A' <= c && c <= 'Z')) && chars[1] == ':' {
        return 2;
    }
    if chars[0] != '/' || chars[1] != '/' {
        return 0;
    }
    let rest = vstd::slice::slice_subrange(chars, 2, n);
    assert(rest@ =~= chars@.skip(2));
    let server: usize = position_of_first(rest, '/');
    if server == 0 || n - server <= 3 {
        return 0;
    }
    let rest = vstd::slice::slice_subrange(chars, server + 3, n);
    assert(rest@ =~= chars@.skip(server + 3));
    let share: usize = position_of_first(rest, '/');
    if share == 0 {
        return 0;
    }
    server + 3 + share
}

/// The part of a text that names something, if it does.
fn named_part(chars: &[char], start: usize, end: usize) -> (r: Option<String>)
    requires
        start <= end <= chars@.len(),
    ensures
        ({
            let c = chars@.subrange(start as int, end as int);
            match r {
                Some(s) => is_name(c) && s@ == c,
                None => !is_name(c),
            }
        }),
{
    let len: usize = end - start;
    let ghost c = chars@.subrange(start as int, end as int);
    let plain: bool = len > 0 && !(len == 1 && chars[start] == '.') && !(len == 2 && chars[start]
        == '.' && chars[start + 1] == '.');
    proof {
        let one = seq!['.'];
        let two = seq!['.', '.'];
        assert(one.len() == 1 && one[0] == '.');
        assert(two.len() == 2 && two[0] == '.' && two[1] == '.');
        if len == 1 && chars@[start as int] == '.' {
            assert(c =~= one);
        }
        if len == 2 && chars@[start as int] == '.' && chars@[start + 1] == '.' {
            assert(c =~= two);
        }
        if plain {
            assert(len == 1 ==> c[0] == chars@[start as int]);
            assert(len == 2 ==> c[0] == chars@[start as int] && c[1] == chars@[start + 1]);
            assert(c != one);
            assert(c != two);
        }
    }
    if plain {
        Some(string_between(chars, start, end))
    } else {
        None
    }
}

/// How many characters the prefix of a verbatim path takes up.
fn verbatim_prefix(chars: &[char]) -> (r: usize)
    requires
        is_verbatim(chars@),
    ensures
        r == verbatim_prefix_len(chars@),
        r <= chars@.len(),
{
    let n: usize = chars.len();
    if n >= 8 && chars[4] == 'U' && chars[5] == 'N' && chars[6] == 'C' && (chars[7] == '\\' || chars[7]
        == '/') {
        let rest = vstd::slice::slice_subrange(chars, 8, n);
        assert(rest@ =~= chars@.skip(8));
        let server: usize = position_of_first(rest, '\\');
        if n - 8 - server > 1 {
            let rest = vstd::slice::slice_subrange(chars, server + 9, n);
            assert(rest@ =~= chars@.skip(server + 9));
            let share: usize = position_of_first(rest, '\\');
            if share > 0 {
                return server + 9 + share;
            }
        }
        return server + 8;
    }
    let rest = vstd::slice::slice_subrange(chars, 4, n);
    assert(rest@ =~= chars@.skip(4));
    if n >= 6 {
        let c: char = chars[4];
        if (('a' <= c && c <= 'z') || ('A' <= c && c <= 'Z')) && chars[5] == ':' && (n == 6
            || chars[6] == '\\' || chars[6] == '/') {
            return 6;
        }
    }
    4 + position_of_first(rest, '\\')
}

/// The name that a verbatim path ends in, if it ends in one.
fn verbatim_name(chars: &[char]) -> (r: Option<String>)
    requires
        is_verbatim(chars@),
    ensures
        match r {
            Some(s) => is_name(last_verbatim(chars@)) && s@ == last_verbatim(chars@),
            None => !is_name(last_verbatim(chars@)),
        },
{
    let from: usize = verbatim_prefix(chars);
    let ghost body = chars@.skip(from as int);
    let mut end: usize = chars.len();
    assert(chars@.subrange(from as int, end as int) =~= body);
    while end > from && chars[end - 1] == '\\'
        invariant
            from <= end <= chars@.len(),
            without_trailing(chars@.subrange(from as int, end as int), '\\') == without_trailing(
                body,
                '\\',
            ),
        decreases end,
    {
        assert(chars@.subrange(from as int, end as int).drop_last() =~= chars@.subrange(
            from as int,
            end - 1,
        ));
        end = end - 1;
    }
    let ghost q = chars@.subrange(from as int, end as int);
    assert(without_trailing(q, '\\') == q);
    let kept = vstd::slice::slice_subrange(chars, from, end);
    assert(kept@ =~= q);
    let start: usize = position_after_last(kept, '\\');
    assert(kept@.subrange(start as int, kept@.len() as int) =~= q.skip(start as int));
    named_part(kept, start, kept.len())
}

/// The name that a path ends in on this host; the path itself where it does not
/// end in one. `backslash` says whether `\` separates too.
pub fn host_basename(p: &str, backslash: bool) -> (r: String)
    ensures
        r@ == host_name_of_path(p@, backslash),
{
    if !backslash {
        return basename(p);
    }
    let raw = chars_of(p);
    let named: Option<String>;
    if raw.len() >= 4 && raw[0] == '\\' && raw[1] == '\\' && raw[2] == '?' && raw[3] == '\\' {
        named = verbatim_name(raw.as_slice());
    } else {
        let chars = chars_of(slashed(p, true).as_str());
        let from: usize = path_prefix(chars.as_slice());
        let rest = vstd::slice::slice_subrange(chars.as_slice(), from, chars.len());
        assert(rest@ =~= chars@.skip(from as int));
        named = final_name(rest);
    }
    match named {
        Some(name) => name,
        None => p.to_owned(),
    }
}

} // verus!
