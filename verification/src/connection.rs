//! The handshake and framing of the socket protocol spoken with Criterion.rs benchmarks, and the
//! plain data types that the benchmarks send.
//!
//! When a benchmark connects, the runner sends its hello (magic number and version), then reads
//! the benchmark's hello (magic number, Criterion.rs version, protocol version and protocol
//! format). Afterwards every message travels as a four-byte big-endian length followed by that
//! many bytes of payload.
use vstd::prelude::*;

verus! {

/// Why talking to a benchmark failed.
#[derive(Debug)]
pub enum ConnectionError {
    HelloFailed(&'static str),
}

/// Said when the peer's hello does not start with the Criterion.rs magic number.
pub const NOT_A_BENCHMARK: &'static str = "Not connected to a Criterion.rs benchmark.";

/// Said when the peer announces a message format that this runner does not know.
pub const UNKNOWN_FORMAT: &'static str = "Unknown format value sent by Criterion.rs benchmark; please update cargo-criterion.";

impl ConnectionError {
    /// The text of the error, as shown to the user.
    pub fn message(&self) -> (r: String)
        ensures
            match self {
                ConnectionError::HelloFailed(e) => r@ == "Failed to connect to Criterion.rs benchmark:\n"@ + e@,
            },
    {
        match self {
            ConnectionError::HelloFailed(error) => {
                let r = String::from_str("Failed to connect to Criterion.rs benchmark:\n");
                r.concat(error)
            },
        }
    }
}

/// The encodings a benchmark may use for its messages.
#[derive(Debug, Clone, Copy, PartialEq, Eq, Structural)]
pub enum ProtocolFormat {
    Cbor,
}

impl ProtocolFormat {
    /// The format announced by the number `format` in a benchmark's hello; only `1` (CBOR) is known.
    pub fn from_u16(format: u16) -> (r: Result<ProtocolFormat, ConnectionError>)
        ensures
            format == 1 ==> r == Ok::<ProtocolFormat, ConnectionError>(ProtocolFormat::Cbor),
            format != 1 ==> r == Err::<ProtocolFormat, ConnectionError>(ConnectionError::HelloFailed(UNKNOWN_FORMAT)),
    {
        match format {
            1 => Ok(ProtocolFormat::Cbor),
            _ => Err(ConnectionError::HelloFailed(UNKNOWN_FORMAT)),
        }
    }
}

/// The magic number the runner sends: the bytes of `cargo-criterion`.
pub open spec fn runner_magic() -> Seq<u8> {
    seq![99u8, 97u8, 114u8, 103u8, 111u8, 45u8, 99u8, 114u8, 105u8, 116u8, 101u8, 114u8, 105u8, 111u8, 110u8]
}

/// The magic number a benchmark sends: the bytes of `Criterion`.
pub open spec fn benchmark_magic() -> Seq<u8> {
    seq![67u8, 114u8, 105u8, 116u8, 101u8, 114u8, 105u8, 111u8, 110u8]
}

/// Size of the runner's hello: the magic number and three version bytes.
pub const RUNNER_HELLO_SIZE: usize = 18;

/// Size of a benchmark's hello: the magic number, three version bytes, a two-byte protocol
/// version and a two-byte protocol format.
pub const BENCHMARK_HELLO_SIZE: usize = 16;

/// The value of two bytes read as a big-endian number.
pub open spec fn be_u16_value(hi: u8, lo: u8) -> int {
    hi * 256 + lo
}

/// The four bytes of `n` in big-endian order.
pub open spec fn be_u32_bytes(n: u32) -> Seq<u8> {
    seq![(n / 0x100_0000) as u8, (n / 0x1_0000 % 0x100) as u8, (n / 0x100 % 0x100) as u8, (n % 0x100) as u8]
}

/// The value of four bytes read as a big-endian number.
pub open spec fn be_u32_value(b: Seq<u8>) -> int {
    b[0] * 0x100_0000 + b[1] * 0x1_0000 + b[2] * 0x100 + b[3]
}

/// The bytes of the runner's hello for the given version (major, minor, patch).
pub fn runner_hello(version: [u8; 3]) -> (r: Vec<u8>)
    ensures
        r@ == runner_magic() + version@,
        r@.len() == RUNNER_HELLO_SIZE,
{
    let r: Vec<u8> = vec![
        99u8, 97u8, 114u8, 103u8, 111u8, 45u8, 99u8, 114u8, 105u8, 116u8, 101u8, 114u8, 105u8, 111u8, 110u8,
        version[0], version[1], version[2],
    ];
    assert(r@ =~= runner_magic() + version@);
    r
}

/// What a benchmark tells about itself in its hello.
#[derive(Debug, Clone, Copy)]
pub struct BenchmarkHello {
    pub criterion_rs_version: [u8; 3],
    pub protocol_version: u16,
    pub protocol_format: ProtocolFormat,
}

/// Reads a benchmark's hello. It is refused when the magic number is wrong, or when the
/// announced format is unknown.
pub fn parse_benchmark_hello(buf: &[u8]) -> (r: Result<BenchmarkHello, ConnectionError>)
    requires
        buf@.len() == BENCHMARK_HELLO_SIZE,
    ensures
        buf@.take(9) != benchmark_magic() ==> r == Err::<BenchmarkHello, ConnectionError>(
            ConnectionError::HelloFailed(NOT_A_BENCHMARK),
        ),
        buf@.take(9) == benchmark_magic() && be_u16_value(buf@[14], buf@[15]) != 1 ==> r == Err::<
            BenchmarkHello,
            ConnectionError,
        >(ConnectionError::HelloFailed(UNKNOWN_FORMAT)),
        buf@.take(9) == benchmark_magic() && be_u16_value(buf@[14], buf@[15]) == 1 ==> (r matches Ok(h) && {
            &&& h.criterion_rs_version@ == buf@.subrange(9, 12)
            &&& h.protocol_version == be_u16_value(buf@[12], buf@[13])
            &&& h.protocol_format == ProtocolFormat::Cbor
        }),
{
    let magic: Vec<u8> = vec![67u8, 114u8, 105u8, 116u8, 101u8, 114u8, 105u8, 111u8, 110u8];
    assert(magic@ =~= benchmark_magic());
    let mut i: usize = 0;
    while i < 9
        invariant
            i <= 9,
            buf@.len() == BENCHMARK_HELLO_SIZE,
            magic@ == benchmark_magic(),
            forall|j: int| 0 <= j < i ==> buf@[j] == magic@[j],
        decreases 9 - i,
    {
        if buf[i] != magic[i] {
            assert(buf@.take(9)[i as int] != benchmark_magic()[i as int]);
            return Err(ConnectionError::HelloFailed(NOT_A_BENCHMARK));
        }
        i = i + 1;
    }
    assert(buf@.take(9) =~= benchmark_magic());
    let criterion_rs_version = [buf[9], buf[10], buf[11]];
    let protocol_version = (buf[12] as u16) * 256 + (buf[13] as u16);
    let format = (buf[14] as u16) * 256 + (buf[15] as u16);
    let protocol_format = match ProtocolFormat::from_u16(format) {
        Ok(f) => f,
        Err(e) => return Err(e),
    };
    assert(criterion_rs_version@ =~= buf@.subrange(9, 12));
    Ok(BenchmarkHello { criterion_rs_version, protocol_version, protocol_format })
}

/// The four-byte header announcing a message of `len` bytes.
pub fn frame_header(len: usize) -> (r: Vec<u8>)
    requires
        len <= u32::MAX,
    ensures
        r@ == be_u32_bytes(len as u32),
        be_u32_value(r@) == len,
{
    let n = len as u32;
    let r: Vec<u8> = vec![
        (n / 0x100_0000) as u8,
        (n / 0x1_0000 % 0x100) as u8,
        (n / 0x100 % 0x100) as u8,
        (n % 0x100) as u8,
    ];
    proof {
        lemma_be_u32_roundtrip(n);
    }
    assert(r@ =~= be_u32_bytes(n));
    r
}

/// The length of the message announced by a four-byte header.
pub fn frame_length(header: &[u8]) -> (n: u32)
    requires
        header@.len() == 4,
    ensures
        n == be_u32_value(header@),
{
    (header[0] as u32) * 0x100_0000 + (header[1] as u32) * 0x1_0000 + (header[2] as u32) * 0x100
        + (header[3] as u32)
}

/// Reading back the header written for a length gives that length.
pub proof fn lemma_be_u32_roundtrip(n: u32)
    ensures
        be_u32_value(be_u32_bytes(n)) == n,
{
    let b = be_u32_bytes(n);
    assert(b[0] == n / 0x100_0000);
    assert(b[1] == n / 0x1_0000 % 0x100);
    assert(b[2] == n / 0x100 % 0x100);
    assert(b[3] == n % 0x100);
}

/// How the summary plots of a group scale their axes.
#[derive(Debug, Clone, Copy, PartialEq, Eq, Structural)]
pub enum AxisScale {
    Linear,
    Logarithmic,
}

/// Plot settings chosen by the benchmark.
#[derive(Debug, Clone, Copy)]
pub struct PlotConfiguration {
    pub summary_scale: AxisScale,
}

/// The amount of work done by one iteration of a benchmark.
#[derive(Debug, Clone, Copy, PartialEq, Eq, Hash, Structural)]
pub enum Throughput {
    Bytes(u64),
    Elements(u64),
}

/// How a benchmark chose its iteration counts.
#[derive(Debug, Clone, Copy, PartialEq, Eq, Structural)]
pub enum SamplingMethod {
    Linear,
    Flat,
}

impl SamplingMethod {
    /// Whether the iteration counts grow linearly, so that a regression can be fitted.
    pub fn is_linear(&self) -> (r: bool)
        ensures
            r == (*self == SamplingMethod::Linear),
    {
        matches!(self, SamplingMethod::Linear)
    }
}

/// A benchmark's identity as the benchmark sends it.
#[derive(Debug, Clone)]
pub struct RawBenchmarkId {
    pub group_id: String,
    pub function_id: Option<String>,
    pub value_str: Option<String>,
    pub throughput: Vec<Throughput>,
}

} // verus!
