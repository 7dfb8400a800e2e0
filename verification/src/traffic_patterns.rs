//! The probe traffic patterns of the RNTI matcher: one preset per
//! letter, each a finite queue of `(sleep_ms, payload)` records together
//! with the standardization constants of its feature vector.
//!
//! Means and standard deviations are kept in thousandths, so `1303.524`
//! is stored as `1_303_524`.

use vstd::prelude::*;

use crate::util::sat_add_u64;

verus! {

/// The traffic pattern presets, labelled A to Z.
#[derive(Clone, Copy, Debug, PartialEq, Eq, Structural)]
#[allow(missing_docs)]
pub enum RntiMatchingTrafficPatternType {
    A,
    B,
    C,
    D,
    E,
    F,
    G,
    H,
    I,
    J,
    K,
    L,
    M,
    N,
    O,
    P,
    Q,
    R,
    S,
    T,
    U,
    V,
    W,
    X,
    Y,
    Z,
}

/// One probe packet: sleep `time_ms`, then send `payload`.
#[derive(Clone, Debug, PartialEq)]
pub struct TrafficPatternMessage {
    pub time_ms: u16,
    pub payload: Vec<u8>,
}

/// A finite queue of probe packets with the standardization vector
/// (mean, standard deviation, both in thousandths) of its features.
#[derive(Clone, Debug, PartialEq)]
pub struct TrafficPattern {
    pub messages: Vec<TrafficPatternMessage>,
    pub pattern_type: RntiMatchingTrafficPatternType,
    pub std_vec: Vec<(i64, i64)>,
}

/// The integer features of a pattern, carried by a matching round.
#[derive(Clone, Debug, PartialEq)]
pub struct TrafficPatternFeatures {
    pub pattern_type: RntiMatchingTrafficPatternType,
    pub std_vec: Vec<(i64, i64)>,
    pub total_ul_bytes: u64,
    pub nof_packets: u64,
}

/// Sum of the payload sizes, saturating at the word size.
pub open spec fn spec_total_ul_bytes(s: Seq<TrafficPatternMessage>) -> int
    decreases s.len(),
{
    if s.len() == 0 {
        0
    } else {
        let rest = spec_total_ul_bytes(s.drop_last());
        if rest + s.last().payload@.len() > u64::MAX {
            u64::MAX as int
        } else {
            rest + s.last().payload@.len()
        }
    }
}

/// Sum of the sleep times in milliseconds, saturating at the word size.
pub open spec fn spec_total_time_ms(s: Seq<TrafficPatternMessage>) -> int
    decreases s.len(),
{
    if s.len() == 0 {
        0
    } else {
        let rest = spec_total_time_ms(s.drop_last());
        if rest + s.last().time_ms > u64::MAX {
            u64::MAX as int
        } else {
            rest + s.last().time_ms
        }
    }
}

impl TrafficPattern {
    /// Number of probe packets.
    pub fn nof_packets(&self) -> (r: u64)
        requires
            self.messages@.len() <= u64::MAX,
        ensures
            r == self.messages@.len(),
    {
        self.messages.len() as u64
    }

    /// Bytes this pattern sends in total (saturating).
    pub fn total_ul_bytes(&self) -> (r: u64)
        ensures
            r == spec_total_ul_bytes(self.messages@),
    {
        let mut sum: u64 = 0;
        let mut i: usize = 0;
        while i < self.messages.len()
            invariant
                0 <= i <= self.messages@.len(),
                sum == spec_total_ul_bytes(self.messages@.take(i as int)),
            decreases self.messages@.len() - i,
        {
            proof {
                assert(self.messages@.take(i + 1).drop_last() =~= self.messages@.take(i as int));
                assert(self.messages@.take(i + 1).last() == self.messages@[i as int]);
            }
            let n: usize = self.messages[i].payload.len();
            sum = sat_add_u64(sum, n as u64);
            i = i + 1;
        }
        proof {
            assert(self.messages@.take(self.messages@.len() as int) =~= self.messages@);
        }
        sum
    }

    /// Milliseconds this pattern takes in total (saturating).
    pub fn total_time_ms(&self) -> (r: u64)
        ensures
            r == spec_total_time_ms(self.messages@),
    {
        let mut sum: u64 = 0;
        let mut i: usize = 0;
        while i < self.messages.len()
            invariant
                0 <= i <= self.messages@.len(),
                sum == spec_total_time_ms(self.messages@.take(i as int)),
            decreases self.messages@.len() - i,
        {
            proof {
                assert(self.messages@.take(i + 1).drop_last() =~= self.messages@.take(i as int));
                assert(self.messages@.take(i + 1).last() == self.messages@[i as int]);
            }
            let t: u16 = self.messages[i].time_ms;
            sum = sat_add_u64(sum, t as u64);
            i = i + 1;
        }
        proof {
            assert(self.messages@.take(self.messages@.len() as int) =~= self.messages@);
        }
        sum
    }
}

impl TrafficPatternFeatures {
    /// The integer features of a pattern.  Fails exactly on a pattern
    /// without packets, whose statistics are undefined.
    pub fn from_traffic_pattern(pattern: &TrafficPattern) -> (r: Result<TrafficPatternFeatures, ()>)
        requires
            pattern.messages@.len() <= u64::MAX,
        ensures
            r is Ok <==> pattern.messages@.len() > 0,
            r matches Ok(f) ==> f.pattern_type == pattern.pattern_type && f.std_vec@
                == pattern.std_vec@ && f.total_ul_bytes == spec_total_ul_bytes(pattern.messages@)
                && f.nof_packets == pattern.messages@.len(),
    {
        if pattern.messages.len() == 0 {
            return Err(());
        }
        let mut std_vec: Vec<(i64, i64)> = Vec::new();
        let mut i: usize = 0;
        while i < pattern.std_vec.len()
            invariant
                0 <= i <= pattern.std_vec@.len(),
                std_vec@ =~= pattern.std_vec@.take(i as int),
            decreases pattern.std_vec@.len() - i,
        {
            std_vec.push(pattern.std_vec[i]);
            i = i + 1;
        }
        proof {
            assert(pattern.std_vec@.take(pattern.std_vec@.len() as int) =~= pattern.std_vec@);
        }
        Ok(
            TrafficPatternFeatures {
                pattern_type: pattern.pattern_type,
                std_vec,
                total_ul_bytes: pattern.total_ul_bytes(),
                nof_packets: pattern.nof_packets(),
            },
        )
    }
}

/// Two to the power `n`.
pub open spec fn pow2(n: nat) -> nat
    decreases n,
{
    if n == 0 {
        1
    } else {
        2 * pow2((n - 1) as nat)
    }
}

/// A queue of packets of exponentially growing size: one packet every
/// `interval_ms` over `time_ms`, the payload doubling per packet up to
/// `2^max_pow` bytes, then one trailing packet after `pause_time_ms`.
pub fn generate_incremental_pattern(
    interval_ms: u16,
    max_pow: u32,
    time_ms: u32,
    pause_time_ms: u16,
) -> (r: Vec<TrafficPatternMessage>)
    requires
        interval_ms > 0,
        max_pow <= 20,
    ensures
        r@.len() == time_ms as int / interval_ms as int + 1,
        forall|i: int|
            0 <= i < r@.len() - 1 ==> (#[trigger] r@[i]).time_ms == interval_ms
                && r@[i].payload@.len() == pow2(
                if i <= max_pow {
                    i as nat
                } else {
                    max_pow as nat
                },
            ),
        r@.last().time_ms == pause_time_ms,
        r@.last().payload@.len() == pow2(max_pow as nat),
{
    let mut messages: Vec<TrafficPatternMessage> = Vec::new();
    let count: u32 = time_ms / interval_ms as u32;
    let mut increment: usize = 1;
    proof {
        assert(pow2(0) == 1);
        lemma_pow2_values();
        lemma_pow2_monotone(0, max_pow as nat);
        lemma_pow2_monotone(max_pow as nat, 20);
    }
    let mut i: u32 = 0;
    while i < count
        invariant
            0 <= i <= count,
            max_pow <= 20,
            messages@.len() == i,
            increment == pow2(
                if i <= max_pow {
                    i as nat
                } else {
                    max_pow as nat
                },
            ),
            increment <= pow2(max_pow as nat),
            pow2(max_pow as nat) <= 0x100000,
            forall|k: int|
                0 <= k < i ==> (#[trigger] messages@[k]).time_ms == interval_ms
                    && messages@[k].payload@.len() == pow2(
                    if k <= max_pow {
                        k as nat
                    } else {
                        max_pow as nat
                    },
                ),
        decreases count - i,
    {
        messages.push(TrafficPatternMessage { time_ms: interval_ms, payload: vec![0xA0; increment] });
        if i < max_pow {
            proof {
                lemma_pow2_monotone((i + 1) as nat, max_pow as nat);
                lemma_pow2_monotone(max_pow as nat, 20);
                lemma_pow2_values();
            }
            increment = increment * 2;
        }
        i = i + 1;
    }
    messages.push(
        TrafficPatternMessage { time_ms: pause_time_ms, payload: vec![0xA0; pow2_exec(max_pow)] },
    );
    messages
}

/// `2^n` computed by doubling.
fn pow2_exec(n: u32) -> (r: usize)
    requires
        n <= 20,
    ensures
        r == pow2(n as nat),
{
    let mut r: usize = 1;
    let mut i: u32 = 0;
    while i < n
        invariant
            0 <= i <= n <= 20,
            r == pow2(i as nat),
            r <= 0x100000,
        decreases n - i,
    {
        proof {
            lemma_pow2_monotone((i + 1) as nat, n as nat);
            lemma_pow2_monotone(n as nat, 20);
            lemma_pow2_values();
        }
        r = r * 2;
        i = i + 1;
    }
    r
}

/// Closed values of `pow2` used by the presets.
proof fn lemma_pow2_values()
    ensures
        pow2(15) == 0x8000,
        pow2(20) == 0x100000,
{
    reveal_with_fuel(pow2, 21);
}

/// `pow2` grows with its argument.
proof fn lemma_pow2_monotone(a: nat, b: nat)
    requires
        a <= b,
    ensures
        pow2(a) <= pow2(b),
    decreases b,
{
    if a < b {
        lemma_pow2_monotone(a, (b - 1) as nat);
    }
}

/// Pushes `count` packets of `time_ms` sleep and `size` payload bytes.
fn push_uniform(
    messages: &mut Vec<TrafficPatternMessage>,
    count: usize,
    time_ms: u16,
    size: usize,
)
    ensures
        final(messages)@.len() == old(messages)@.len() + count,
        forall|k: int|
            0 <= k < old(messages)@.len() ==> final(messages)@[k] == old(messages)@[k],
        forall|k: int|
            old(messages)@.len() <= k < final(messages)@.len() ==> (#[trigger] final(messages)@[k]).time_ms
                == time_ms && final(messages)@[k].payload@.len() == size,
{
    let mut i: usize = 0;
    while i < count
        invariant
            0 <= i <= count,
            messages@.len() == old(messages)@.len() + i,
            forall|k: int| 0 <= k < old(messages)@.len() ==> messages@[k] == old(messages)@[k],
            forall|k: int|
                old(messages)@.len() <= k < messages@.len() ==> (#[trigger] messages@[k]).time_ms
                    == time_ms && messages@[k].payload@.len() == size,
        decreases count - i,
    {
        messages.push(TrafficPatternMessage { time_ms, payload: vec![0xA0; size] });
        i = i + 1;
    }
}

impl RntiMatchingTrafficPatternType {
    /// Builds the preset this label names.
    pub fn generate_pattern(&self) -> (r: TrafficPattern)
        ensures
            r.pattern_type == *self,
    {
        match *self {
            RntiMatchingTrafficPatternType::A => pattern_a(),
            RntiMatchingTrafficPatternType::B => pattern_b(),
            RntiMatchingTrafficPatternType::C => pattern_c(),
            RntiMatchingTrafficPatternType::D => pattern_d(),
            RntiMatchingTrafficPatternType::E => pattern_e(),
            RntiMatchingTrafficPatternType::F => pattern_f(),
            RntiMatchingTrafficPatternType::G => pattern_g(),
            RntiMatchingTrafficPatternType::H => pattern_h(),
            RntiMatchingTrafficPatternType::I => pattern_i(),
            RntiMatchingTrafficPatternType::J => pattern_j(),
            RntiMatchingTrafficPatternType::K => pattern_k(),
            RntiMatchingTrafficPatternType::L => pattern_l(),
            RntiMatchingTrafficPatternType::M => pattern_m(),
            RntiMatchingTrafficPatternType::N => pattern_n(),
            RntiMatchingTrafficPatternType::O => pattern_o(),
            RntiMatchingTrafficPatternType::P => pattern_p(),
            RntiMatchingTrafficPatternType::Q => pattern_q(),
            RntiMatchingTrafficPatternType::R => pattern_r(),
            RntiMatchingTrafficPatternType::S => pattern_s(),
            RntiMatchingTrafficPatternType::T => pattern_t(),
            RntiMatchingTrafficPatternType::U => pattern_u(),
            RntiMatchingTrafficPatternType::V => pattern_v(),
            RntiMatchingTrafficPatternType::W => pattern_w(),
            RntiMatchingTrafficPatternType::X => pattern_x(),
            RntiMatchingTrafficPatternType::Y => pattern_y(),
            RntiMatchingTrafficPatternType::Z => pattern_z(),
        }
    }
}

/// Preset A: 10 s of 128 B packets at a 1 ms interval.
pub fn pattern_a() -> (r: TrafficPattern)
    ensures
        r.pattern_type == RntiMatchingTrafficPatternType::A,
        r.messages@.len() == 10001,
        r.std_vec@.len() == 8,
{
    let mut std_vec: Vec<(i64, i64)> = Vec::new();
    std_vec.push((1303524, 118975));
    std_vec.push((5170909524, 328405228));
    std_vec.push((989143, 104019));
    std_vec.push((3984789, 274161));
    std_vec.push((31582535518, 4674047579));
    std_vec.push((5258446, 482658));
    std_vec.push((8269488, 719246));
    std_vec.push((96718304958, 49552811538));
    TrafficPattern {
        pattern_type: RntiMatchingTrafficPatternType::A,
        messages: generate_incremental_pattern(1, 7, 10000, 1),
        std_vec,
    }
}

/// Preset B: 10 s of 128 B packets at a 5 ms interval.
pub fn pattern_b() -> (r: TrafficPattern)
    ensures
        r.pattern_type == RntiMatchingTrafficPatternType::B,
        r.messages@.len() == 2001,
        r.std_vec@.len() == 8,
{
    let mut std_vec: Vec<(i64, i64)> = Vec::new();
    std_vec.push((1172476, 84147));
    std_vec.push((1070693524, 88380296));
    std_vec.push((436667, 49241));
    std_vec.push((914404, 59475));
    std_vec.push((1656085165, 225857600));
    std_vec.push((5258113, 482284));
    std_vec.push((9032604, 617573));
    std_vec.push((225072559429, 136364731413));
    TrafficPattern {
        pattern_type: RntiMatchingTrafficPatternType::B,
        messages: generate_incremental_pattern(5, 7, 10000, 1),
        std_vec,
    }
}

/// Preset C: 10 s of 128 B packets at a 10 ms interval.
pub fn pattern_c() -> (r: TrafficPattern)
    ensures
        r.pattern_type == RntiMatchingTrafficPatternType::C,
        r.messages@.len() == 1001,
        r.std_vec@.len() == 8,
{
    let mut std_vec: Vec<(i64, i64)> = Vec::new();
    std_vec.push((1686060, 89275));
    std_vec.push((806351810, 59070611));
    std_vec.push((404381, 35977));
    std_vec.push((477924, 16758));
    std_vec.push((285107429, 95070207));
    std_vec.push((4956214, 69591));
    std_vec.push((6269322, 311308));
    std_vec.push((154037780727, 152680400422));
    TrafficPattern {
        pattern_type: RntiMatchingTrafficPatternType::C,
        messages: generate_incremental_pattern(10, 7, 10000, 1),
        std_vec,
    }
}

/// Preset D: 10 s of 128 B packets at a 15 ms interval.
pub fn pattern_d() -> (r: TrafficPattern)
    ensures
        r.pattern_type == RntiMatchingTrafficPatternType::D,
        r.messages@.len() == 667,
        r.std_vec@.len() == 8,
{
    let mut std_vec: Vec<(i64, i64)> = Vec::new();
    std_vec.push((1634381, 96456));
    std_vec.push((744945238, 55137483));
    std_vec.push((399667, 57232));
    std_vec.push((455631, 16472));
    std_vec.push((281419406, 204011793));
    std_vec.push((4959494, 75904));
    std_vec.push((6460818, 378365));
    std_vec.push((164091450826, 130185927368));
    TrafficPattern {
        pattern_type: RntiMatchingTrafficPatternType::D,
        messages: generate_incremental_pattern(15, 7, 10000, 1),
        std_vec,
    }
}

/// Preset E: 10 s of 128 B packets at a 20 ms interval.
pub fn pattern_e() -> (r: TrafficPattern)
    ensures
        r.pattern_type == RntiMatchingTrafficPatternType::E,
        r.messages@.len() == 501,
        r.std_vec@.len() == 8,
{
    let mut std_vec: Vec<(i64, i64)> = Vec::new();
    std_vec.push((1590107, 133691));
    std_vec.push((761000857, 130823198));
    std_vec.push((492190, 143579));
    std_vec.push((476569, 33139));
    std_vec.push((266374380, 74522723));
    std_vec.push((4953548, 212955));
    std_vec.push((6651133, 470289));
    std_vec.push((169247947552, 142828361282));
    TrafficPattern {
        pattern_type: RntiMatchingTrafficPatternType::E,
        messages: generate_incremental_pattern(20, 7, 10000, 1),
        std_vec,
    }
}

/// Preset F: 10 s of 128 B packets at a 40 ms interval.
pub fn pattern_f() -> (r: TrafficPattern)
    ensures
        r.pattern_type == RntiMatchingTrafficPatternType::F,
        r.messages@.len() == 251,
        r.std_vec@.len() == 8,
{
    let mut std_vec: Vec<(i64, i64)> = Vec::new();
    std_vec.push((1531250, 305115));
    std_vec.push((740691524, 149809699));
    std_vec.push((601143, 139415));
    std_vec.push((493095, 77938));
    std_vec.push((535847681, 1587361050));
    std_vec.push((4961327, 232483));
    std_vec.push((7939456, 7846388));
    std_vec.push((714104054473, 3459849560506));
    TrafficPattern {
        pattern_type: RntiMatchingTrafficPatternType::F,
        messages: generate_incremental_pattern(40, 7, 10000, 1),
        std_vec,
    }
}

/// Preset H: 10 s of 256 B packets at a 1 ms interval.
pub fn pattern_h() -> (r: TrafficPattern)
    ensures
        r.pattern_type == RntiMatchingTrafficPatternType::H,
        r.messages@.len() == 10001,
        r.std_vec@.len() == 8,
{
    let mut std_vec: Vec<(i64, i64)> = Vec::new();
    std_vec.push((1693843, 119172));
    std_vec.push((9066416096, 644568033));
    std_vec.push((1275277, 95283));
    std_vec.push((5357688, 248610));
    std_vec.push((46548500312, 8135171036));
    std_vec.push((4903181, 228600));
    std_vec.push((6337070, 465706));
    std_vec.push((51189570636, 35430664134));
    TrafficPattern {
        pattern_type: RntiMatchingTrafficPatternType::H,
        messages: generate_incremental_pattern(1, 8, 10000, 1),
        std_vec,
    }
}

/// Preset I: 10 s of 256 B packets at a 5 ms interval.
pub fn pattern_i() -> (r: TrafficPattern)
    ensures
        r.pattern_type == RntiMatchingTrafficPatternType::I,
        r.messages@.len() == 2001,
        r.std_vec@.len() == 8,
{
    let mut std_vec: Vec<(i64, i64)> = Vec::new();
    std_vec.push((1150181, 82893));
    std_vec.push((1906619855, 139984909));
    std_vec.push((614843, 129855));
    std_vec.push((1660314, 98195));
    std_vec.push((6746274694, 684085416));
    std_vec.push((5336831, 460689));
    std_vec.push((9199727, 697511));
    std_vec.push((238238507979, 175873328231));
    TrafficPattern {
        pattern_type: RntiMatchingTrafficPatternType::I,
        messages: generate_incremental_pattern(5, 8, 10000, 1),
        std_vec,
    }
}

/// Preset J: 10 s of 256 B packets at a 10 ms interval.
pub fn pattern_j() -> (r: TrafficPattern)
    ensures
        r.pattern_type == RntiMatchingTrafficPatternType::J,
        r.messages@.len() == 1001,
        r.std_vec@.len() == 8,
{
    let mut std_vec: Vec<(i64, i64)> = Vec::new();
    std_vec.push((1596771, 86693));
    std_vec.push((1067878072, 76791272));
    std_vec.push((404145, 11541));
    std_vec.push((668671, 29795));
    std_vec.push((883962435, 140006832));
    std_vec.push((4971090, 22084));
    std_vec.push((6627635, 430548));
    std_vec.push((176614657043, 151487358596));
    TrafficPattern {
        pattern_type: RntiMatchingTrafficPatternType::J,
        messages: generate_incremental_pattern(10, 8, 10000, 1),
        std_vec,
    }
}

/// Preset K: 10 s of 256 B packets at a 15 ms interval.
pub fn pattern_k() -> (r: TrafficPattern)
    ensures
        r.pattern_type == RntiMatchingTrafficPatternType::K,
        r.messages@.len() == 667,
        r.std_vec@.len() == 8,
{
    let mut std_vec: Vec<(i64, i64)> = Vec::new();
    std_vec.push((1676349, 75166));
    std_vec.push((1023226506, 55433586));
    std_vec.push((691759, 32104));
    std_vec.push((610347, 17320));
    std_vec.push((487100040, 74348940));
    std_vec.push((4962952, 9933));
    std_vec.push((6292111, 284696));
    std_vec.push((152140483957, 129298296787));
    TrafficPattern {
        pattern_type: RntiMatchingTrafficPatternType::K,
        messages: generate_incremental_pattern(15, 8, 10000, 1),
        std_vec,
    }
}

/// Preset L: 10 s of 256 B packets at a 20 ms interval.
pub fn pattern_l() -> (r: TrafficPattern)
    ensures
        r.pattern_type == RntiMatchingTrafficPatternType::L,
        r.messages@.len() == 501,
        r.std_vec@.len() == 8,
{
    let mut std_vec: Vec<(i64, i64)> = Vec::new();
    std_vec.push((1611373, 81038));
    std_vec.push((952066120, 54675723));
    std_vec.push((692530, 31421));
    std_vec.push((590871, 17377));
    std_vec.push((445069843, 67743001));
    std_vec.push((4970795, 17327));
    std_vec.push((6551890, 350497));
    std_vec.push((170340777801, 137116780191));
    TrafficPattern {
        pattern_type: RntiMatchingTrafficPatternType::L,
        messages: generate_incremental_pattern(20, 8, 10000, 1),
        std_vec,
    }
}

/// Preset M: 10 s of 256 B packets at a 40 ms interval.
pub fn pattern_m() -> (r: TrafficPattern)
    ensures
        r.pattern_type == RntiMatchingTrafficPatternType::M,
        r.messages@.len() == 251,
        r.std_vec@.len() == 8,
{
    let mut std_vec: Vec<(i64, i64)> = Vec::new();
    std_vec.push((1581639, 236698));
    std_vec.push((889980723, 360202897));
    std_vec.push((693494, 107704));
    std_vec.push((553752, 73131));
    std_vec.push((359658484, 76077035));
    std_vec.push((4912337, 336816));
    std_vec.push((6711155, 593530));
    std_vec.push((160538634769, 144251782604));
    TrafficPattern {
        pattern_type: RntiMatchingTrafficPatternType::M,
        messages: generate_incremental_pattern(40, 8, 10000, 1),
        std_vec,
    }
}

/// Preset N: 5 s of 256 B packets at a 40 ms interval, then 5 s of nothing.
pub fn pattern_n() -> (r: TrafficPattern)
    ensures
        r.pattern_type == RntiMatchingTrafficPatternType::N,
        r.messages@.len() == 126,
        r.std_vec@.len() == 8,
{
    let mut std_vec: Vec<(i64, i64)> = Vec::new();
    std_vec.push((881566, 464619));
    std_vec.push((510269494, 464966950));
    std_vec.push((664675, 159314));
    std_vec.push((553049, 87271));
    std_vec.push((407529896, 147616223));
    std_vec.push((4853566, 594289));
    std_vec.push((13015614, 4761492));
    std_vec.push((5964307190392, 6330999966655));
    TrafficPattern {
        pattern_type: RntiMatchingTrafficPatternType::N,
        messages: generate_incremental_pattern(40, 8, 5000, 5000),
        std_vec,
    }
}

/// Preset G: sinusoidal packet sizes at a 5 ms interval.  The payload sizes follow one fixed
/// sinusoid table, 2000 packets of 5 ms each.
pub fn pattern_g() -> (r: TrafficPattern)
    ensures
        r.pattern_type == RntiMatchingTrafficPatternType::G,
        r.messages@.len() == 2000,
        r.std_vec@.len() == 8,
{
    let sizes: [u16; 2000] = [
        256, 259, 262, 265, 268, 271, 274, 277, 280, 283, 286, 289, 292, 295, 297, 300,
        303, 306, 309, 311, 314, 317, 319, 322, 325, 327, 330, 332, 334, 337, 339, 341,
        344, 346, 348, 350, 352, 354, 356, 358, 360, 361, 363, 365, 366, 368, 369, 371,
        372, 373, 374, 375, 376, 377, 378, 379, 380, 381, 381, 382, 382, 383, 383, 384,
        384, 384, 384, 384, 384, 384, 384, 383, 383, 383, 382, 382, 381, 380, 379, 379,
        378, 377, 376, 375, 373, 372, 371, 370, 368, 367, 365, 364, 362, 360, 358, 357,
        355, 353, 351, 349, 347, 344, 342, 340, 338, 335, 333, 330, 328, 325, 323, 320,
        318, 315, 312, 310, 307, 304, 301, 298, 296, 293, 290, 287, 284, 281, 278, 275,
        272, 269, 266, 263, 260, 257, 254, 251, 248, 245, 242, 239, 236, 233, 230, 227,
        224, 221, 218, 215, 213, 210, 207, 204, 202, 199, 196, 193, 191, 188, 186, 183,
        181, 178, 176, 174, 171, 169, 167, 165, 163, 161, 159, 157, 155, 153, 151, 150,
        148, 146, 145, 143, 142, 141, 139, 138, 137, 136, 135, 134, 133, 132, 132, 131,
        130, 130, 129, 129, 129, 128, 128, 128, 128, 128, 128, 128, 129, 129, 129, 130,
        130, 131, 132, 132, 133, 134, 135, 136, 137, 138, 139, 141, 142, 143, 145, 146,
        148, 150, 151, 153, 155, 157, 159, 161, 163, 165, 167, 169, 171, 174, 176, 178,
        181, 183, 186, 188, 191, 193, 196, 199, 202, 204, 207, 210, 213, 215, 218, 221,
        224, 227, 230, 233, 236, 239, 242, 245, 248, 251, 254, 257, 260, 263, 266, 269,
        272, 275, 278, 281, 284, 287, 290, 293, 296, 298, 301, 304, 307, 310, 312, 315,
        318, 320, 323, 325, 328, 330, 333, 335, 338, 340, 342, 344, 347, 349, 351, 353,
        355, 357, 358, 360, 362, 364, 365, 367, 368, 370, 371, 372, 373, 375, 376, 377,
        378, 379, 379, 380, 381, 382, 382, 383, 383, 383, 384, 384, 384, 384, 384, 384,
        384, 384, 383, 383, 382, 382, 381, 381, 380, 379, 378, 377, 376, 375, 374, 373,
        372, 371, 369, 368, 366, 365, 363, 361, 360, 358, 356, 354, 352, 350, 348, 346,
        344, 341, 339, 337, 334, 332, 330, 327, 325, 322, 319, 317, 314, 311, 309, 306,
        303, 300, 297, 295, 292, 289, 286, 283, 280, 277, 274, 271, 268, 265, 262, 259,
        256, 253, 250, 247, 244, 241, 238, 235, 232, 229, 226, 223, 220, 217, 215, 212,
        209, 206, 203, 201, 198, 195, 193, 190, 187, 185, 182, 180, 178, 175, 173, 171,
        168, 166, 164, 162, 160, 158, 156, 154, 152, 151, 149, 147, 146, 144, 143, 141,
        140, 139, 138, 137, 136, 135, 134, 133, 132, 131, 131, 130, 130, 129, 129, 128,
        128, 128, 128, 128, 128, 128, 128, 129, 129, 129, 130, 130, 131, 132, 133, 133,
        134, 135, 136, 137, 139, 140, 141, 142, 144, 145, 147, 148, 150, 152, 154, 155,
        157, 159, 161, 163, 165, 168, 170, 172, 174, 177, 179, 182, 184, 187, 189, 192,
        194, 197, 200, 202, 205, 208, 211, 214, 216, 219, 222, 225, 228, 231, 234, 237,
        240, 243, 246, 249, 252, 255, 258, 261, 264, 267, 270, 273, 276, 279, 282, 285,
        288, 291, 294, 297, 299, 302, 305, 308, 310, 313, 316, 319, 321, 324, 326, 329,
        331, 334, 336, 338, 341, 343, 345, 347, 349, 351, 353, 355, 357, 359, 361, 362,
        364, 366, 367, 369, 370, 371, 373, 374, 375, 376, 377, 378, 379, 380, 380, 381,
        382, 382, 383, 383, 383, 384, 384, 384, 384, 384, 384, 384, 383, 383, 383, 382,
        382, 381, 380, 380, 379, 378, 377, 376, 375, 374, 373, 371, 370, 369, 367, 366,
        364, 362, 361, 359, 357, 355, 353, 351, 349, 347, 345, 343, 341, 338, 336, 334,
        331, 329, 326, 324, 321, 319, 316, 313, 310, 308, 305, 302, 299, 297, 294, 291,
        288, 285, 282, 279, 276, 273, 270, 267, 264, 261, 258, 255, 252, 249, 246, 243,
        240, 237, 234, 231, 228, 225, 222, 219, 216, 214, 211, 208, 205, 202, 200, 197,
        194, 192, 189, 187, 184, 182, 179, 177, 174, 172, 170, 168, 165, 163, 161, 159,
        157, 155, 154, 152, 150, 148, 147, 145, 144, 142, 141, 140, 139, 137, 136, 135,
        134, 133, 133, 132, 131, 130, 130, 129, 129, 129, 128, 128, 128, 128, 128, 128,
        128, 128, 129, 129, 130, 130, 131, 131, 132, 133, 134, 135, 136, 137, 138, 139,
        140, 141, 143, 144, 146, 147, 149, 151, 152, 154, 156, 158, 160, 162, 164, 166,
        168, 171, 173, 175, 178, 180, 182, 185, 187, 190, 193, 195, 198, 201, 203, 206,
        209, 212, 215, 217, 220, 223, 226, 229, 232, 235, 238, 241, 244, 247, 250, 253,
        256, 259, 262, 265, 268, 271, 274, 277, 280, 283, 286, 289, 292, 295, 297, 300,
        303, 306, 309, 311, 314, 317, 319, 322, 325, 327, 330, 332, 334, 337, 339, 341,
        344, 346, 348, 350, 352, 354, 356, 358, 360, 361, 363, 365, 366, 368, 369, 371,
        372, 373, 374, 375, 376, 377, 378, 379, 380, 381, 381, 382, 382, 383, 383, 384,
        384, 384, 384, 384, 384, 384, 384, 383, 383, 383, 382, 382, 381, 380, 379, 379,
        378, 377, 376, 375, 373, 372, 371, 370, 368, 367, 365, 364, 362, 360, 358, 357,
        355, 353, 351, 349, 347, 344, 342, 340, 338, 335, 333, 330, 328, 325, 323, 320,
        318, 315, 312, 310, 307, 304, 301, 298, 296, 293, 290, 287, 284, 281, 278, 275,
        272, 269, 266, 263, 260, 257, 254, 251, 248, 245, 242, 239, 236, 233, 230, 227,
        224, 221, 218, 215, 213, 210, 207, 204, 202, 199, 196, 193, 191, 188, 186, 183,
        181, 178, 176, 174, 171, 169, 167, 165, 163, 161, 159, 157, 155, 153, 151, 150,
        148, 146, 145, 143, 142, 141, 139, 138, 137, 136, 135, 134, 133, 132, 132, 131,
        130, 130, 129, 129, 129, 128, 128, 128, 128, 128, 128, 128, 129, 129, 129, 130,
        130, 131, 132, 132, 133, 134, 135, 136, 137, 138, 139, 141, 142, 143, 145, 146,
        148, 150, 151, 153, 155, 157, 159, 161, 163, 165, 167, 169, 171, 174, 176, 178,
        181, 183, 186, 188, 191, 193, 196, 199, 202, 204, 207, 210, 213, 215, 218, 221,
        224, 227, 230, 233, 236, 239, 242, 245, 248, 251, 254, 257, 260, 263, 266, 269,
        272, 275, 278, 281, 284, 287, 290, 293, 296, 298, 301, 304, 307, 310, 312, 315,
        318, 320, 323, 325, 328, 330, 333, 335, 338, 340, 342, 344, 347, 349, 351, 353,
        355, 357, 358, 360, 362, 364, 365, 367, 368, 370, 371, 372, 373, 375, 376, 377,
        378, 379, 379, 380, 381, 382, 382, 383, 383, 383, 384, 384, 384, 384, 384, 384,
        384, 384, 383, 383, 382, 382, 381, 381, 380, 379, 378, 377, 376, 375, 374, 373,
        372, 371, 369, 368, 366, 365, 363, 361, 360, 358, 356, 354, 352, 350, 348, 346,
        344, 341, 339, 337, 334, 332, 330, 327, 325, 322, 319, 317, 314, 311, 309, 306,
        303, 300, 297, 295, 292, 289, 286, 283, 280, 277, 274, 271, 268, 265, 262, 259,
        256, 253, 250, 247, 244, 241, 238, 235, 232, 229, 226, 223, 220, 217, 215, 212,
        209, 206, 203, 201, 198, 195, 193, 190, 187, 185, 182, 180, 178, 175, 173, 171,
        168, 166, 164, 162, 160, 158, 156, 154, 152, 151, 149, 147, 146, 144, 143, 141,
        140, 139, 138, 137, 136, 135, 134, 133, 132, 131, 131, 130, 130, 129, 129, 128,
        128, 128, 128, 128, 128, 128, 128, 129, 129, 129, 130, 130, 131, 132, 133, 133,
        134, 135, 136, 137, 139, 140, 141, 142, 144, 145, 147, 148, 150, 152, 154, 155,
        157, 159, 161, 163, 165, 168, 170, 172, 174, 177, 179, 182, 184, 187, 189, 192,
        194, 197, 200, 202, 205, 208, 211, 214, 216, 219, 222, 225, 228, 231, 234, 237,
        240, 243, 246, 249, 252, 255, 258, 261, 264, 267, 270, 273, 276, 279, 282, 285,
        288, 291, 294, 297, 299, 302, 305, 308, 310, 313, 316, 319, 321, 324, 326, 329,
        331, 334, 336, 338, 341, 343, 345, 347, 349, 351, 353, 355, 357, 359, 361, 362,
        364, 366, 367, 369, 370, 371, 373, 374, 375, 376, 377, 378, 379, 380, 380, 381,
        382, 382, 383, 383, 383, 384, 384, 384, 384, 384, 384, 384, 383, 383, 383, 382,
        382, 381, 380, 380, 379, 378, 377, 376, 375, 374, 373, 371, 370, 369, 367, 366,
        364, 362, 361, 359, 357, 355, 353, 351, 349, 347, 345, 343, 341, 338, 336, 334,
        331, 329, 326, 324, 321, 319, 316, 313, 310, 308, 305, 302, 299, 297, 294, 291,
        288, 285, 282, 279, 276, 273, 270, 267, 264, 261, 258, 255, 252, 249, 246, 243,
        240, 237, 234, 231, 228, 225, 222, 219, 216, 214, 211, 208, 205, 202, 200, 197,
        194, 192, 189, 187, 184, 182, 179, 177, 174, 172, 170, 168, 165, 163, 161, 159,
        157, 155, 154, 152, 150, 148, 147, 145, 144, 142, 141, 140, 139, 137, 136, 135,
        134, 133, 133, 132, 131, 130, 130, 129, 129, 129, 128, 128, 128, 128, 128, 128,
        128, 128, 129, 129, 130, 130, 131, 131, 132, 133, 134, 135, 136, 137, 138, 139,
        140, 141, 143, 144, 146, 147, 149, 151, 152, 154, 156, 158, 160, 162, 164, 166,
        168, 171, 173, 175, 178, 180, 182, 185, 187, 190, 193, 195, 198, 201, 203, 206,
        209, 212, 215, 217, 220, 223, 226, 229, 232, 235, 238, 241, 244, 247, 250, 253,
        256, 259, 262, 265, 268, 271, 274, 277, 280, 283, 286, 289, 292, 295, 297, 300,
        303, 306, 309, 311, 314, 317, 319, 322, 325, 327, 330, 332, 334, 337, 339, 341,
        344, 346, 348, 350, 352, 354, 356, 358, 360, 361, 363, 365, 366, 368, 369, 371,
        372, 373, 374, 375, 376, 377, 378, 379, 380, 381, 381, 382, 382, 383, 383, 384,
        384, 384, 384, 384, 384, 384, 384, 383, 383, 383, 382, 382, 381, 380, 379, 379,
        378, 377, 376, 375, 373, 372, 371, 370, 368, 367, 365, 364, 362, 360, 358, 357,
        355, 353, 351, 349, 347, 344, 342, 340, 338, 335, 333, 330, 328, 325, 323, 320,
        318, 315, 312, 310, 307, 304, 301, 298, 296, 293, 290, 287, 284, 281, 278, 275,
        272, 269, 266, 263, 260, 257, 254, 251, 248, 245, 242, 239, 236, 233, 230, 227,
        224, 221, 218, 215, 213, 210, 207, 204, 202, 199, 196, 193, 191, 188, 186, 183,
        181, 178, 176, 174, 171, 169, 167, 165, 163, 161, 159, 157, 155, 153, 151, 150,
        148, 146, 145, 143, 142, 141, 139, 138, 137, 136, 135, 134, 133, 132, 132, 131,
        130, 130, 129, 129, 129, 128, 128, 128, 128, 128, 128, 128, 129, 129, 129, 130,
        130, 131, 132, 132, 133, 134, 135, 136, 137, 138, 139, 141, 142, 143, 145, 146,
        148, 150, 151, 153, 155, 157, 159, 161, 163, 165, 167, 169, 171, 174, 176, 178,
        181, 183, 186, 188, 191, 193, 196, 199, 202, 204, 207, 210, 213, 215, 218, 221,
        224, 227, 230, 233, 236, 239, 242, 245, 248, 251, 254, 257, 260, 263, 266, 269,
        272, 275, 278, 281, 284, 287, 290, 293, 296, 298, 301, 304, 307, 310, 312, 315,
        318, 320, 323, 325, 328, 330, 333, 335, 338, 340, 342, 344, 347, 349, 351, 353,
        355, 357, 358, 360, 362, 364, 365, 367, 368, 370, 371, 372, 373, 375, 376, 377,
        378, 379, 379, 380, 381, 382, 382, 383, 383, 383, 384, 384, 384, 384, 384, 384,
        384, 384, 383, 383, 382, 382, 381, 381, 380, 379, 378, 377, 376, 375, 374, 373,
        372, 371, 369, 368, 366, 365, 363, 361, 360, 358, 356, 354, 352, 350, 348, 346,
        344, 341, 339, 337, 334, 332, 330, 327, 325, 322, 319, 317, 314, 311, 309, 306,
        303, 300, 297, 295, 292, 289, 286, 283, 280, 277, 274, 271, 268, 265, 262, 259,
    ];
    let mut messages: Vec<TrafficPatternMessage> = Vec::new();
    let mut i: usize = 0;
    while i < 2000
        invariant
            0 <= i <= 2000,
            messages@.len() == i,
        decreases 2000 - i,
    {
        let size: usize = sizes[i] as usize;
        messages.push(TrafficPatternMessage { time_ms: 5, payload: vec![0xA0; size] });
        i = i + 1;
    }
    let mut std_vec: Vec<(i64, i64)> = Vec::new();
    std_vec.push((1148651, 98184));
    std_vec.push((1933892434, 154693582));
    std_vec.push((635470, 123712));
    std_vec.push((1687174, 100500));
    std_vec.push((7489696214, 690971647));
    std_vec.push((5384024, 603123));
    std_vec.push((9239849, 810738));
    std_vec.push((226870405729, 176491669660));
    TrafficPattern { pattern_type: RntiMatchingTrafficPatternType::G, messages, std_vec }
}

/// Preset O: three rounds of small bursts with 512 B spikes.
pub fn pattern_o() -> (r: TrafficPattern)
    ensures
        r.pattern_type == RntiMatchingTrafficPatternType::O,
        r.messages@.len() == 3150,
{
    let mut messages: Vec<TrafficPatternMessage> = Vec::new();
    push_uniform(&mut messages, 500, 1, 32);
    push_uniform(&mut messages, 500, 1, 64);
    push_uniform(&mut messages, 50, 20, 512);
    push_uniform(&mut messages, 500, 1, 32);
    push_uniform(&mut messages, 500, 1, 64);
    push_uniform(&mut messages, 50, 20, 512);
    push_uniform(&mut messages, 500, 1, 32);
    push_uniform(&mut messages, 500, 1, 64);
    push_uniform(&mut messages, 50, 20, 512);
    let std_vec: Vec<(i64, i64)> = Vec::new();
    TrafficPattern { pattern_type: RntiMatchingTrafficPatternType::O, messages, std_vec }
}

/// Preset P: 5 s of small packets, then 5 s of big ones.
pub fn pattern_p() -> (r: TrafficPattern)
    ensures
        r.pattern_type == RntiMatchingTrafficPatternType::P,
        r.messages@.len() == 5050,
{
    let mut messages: Vec<TrafficPatternMessage> = Vec::new();
    push_uniform(&mut messages, 1000, 1, 8);
    push_uniform(&mut messages, 1000, 1, 16);
    push_uniform(&mut messages, 1000, 1, 32);
    push_uniform(&mut messages, 1000, 1, 32);
    push_uniform(&mut messages, 1000, 1, 32);
    push_uniform(&mut messages, 10, 100, 16000);
    push_uniform(&mut messages, 10, 100, 16000);
    push_uniform(&mut messages, 10, 100, 16000);
    push_uniform(&mut messages, 10, 100, 16000);
    push_uniform(&mut messages, 10, 100, 16000);
    let std_vec: Vec<(i64, i64)> = Vec::new();
    TrafficPattern { pattern_type: RntiMatchingTrafficPatternType::P, messages, std_vec }
}

/// Preset Q: close to no traffic.
pub fn pattern_q() -> (r: TrafficPattern)
    ensures
        r.pattern_type == RntiMatchingTrafficPatternType::Q,
        r.messages@.len() == 2,
{
    let mut messages: Vec<TrafficPatternMessage> = Vec::new();
    push_uniform(&mut messages, 1, 100, 16000);
    push_uniform(&mut messages, 1, 10000, 16000);
    let std_vec: Vec<(i64, i64)> = Vec::new();
    TrafficPattern { pattern_type: RntiMatchingTrafficPatternType::Q, messages, std_vec }
}

/// Preset R: partial traffic: 5 s of tiny packets, one trailing block.
pub fn pattern_r() -> (r: TrafficPattern)
    ensures
        r.pattern_type == RntiMatchingTrafficPatternType::R,
        r.messages@.len() == 5001,
{
    let mut messages: Vec<TrafficPatternMessage> = Vec::new();
    push_uniform(&mut messages, 5000, 1, 16);
    push_uniform(&mut messages, 1, 5000, 16000);
    let std_vec: Vec<(i64, i64)> = Vec::new();
    TrafficPattern { pattern_type: RntiMatchingTrafficPatternType::R, messages, std_vec }
}

/// Preset S: 5 s at 1.6 MB/s after 5 s at 0.6 MB/s.
pub fn pattern_s() -> (r: TrafficPattern)
    ensures
        r.pattern_type == RntiMatchingTrafficPatternType::S,
        r.messages@.len() == 1000,
{
    let mut messages: Vec<TrafficPatternMessage> = Vec::new();
    push_uniform(&mut messages, 500, 10, 16000);
    push_uniform(&mut messages, 500, 10, 32000);
    let std_vec: Vec<(i64, i64)> = Vec::new();
    TrafficPattern { pattern_type: RntiMatchingTrafficPatternType::S, messages, std_vec }
}

/// Preset T: 8 s of 1 KiB packets every ms.
pub fn pattern_t() -> (r: TrafficPattern)
    ensures
        r.pattern_type == RntiMatchingTrafficPatternType::T,
        r.messages@.len() == 8001,
{
    let mut messages: Vec<TrafficPatternMessage> = Vec::new();
    push_uniform(&mut messages, 8000, 1, 1024);
    push_uniform(&mut messages, 1, 2000, 64000);
    let std_vec: Vec<(i64, i64)> = Vec::new();
    TrafficPattern { pattern_type: RntiMatchingTrafficPatternType::T, messages, std_vec }
}

/// Preset U: 20 s of 16 KiB packets every 2 ms.
pub fn pattern_u() -> (r: TrafficPattern)
    ensures
        r.pattern_type == RntiMatchingTrafficPatternType::U,
        r.messages@.len() == 10001,
{
    let mut messages: Vec<TrafficPatternMessage> = Vec::new();
    push_uniform(&mut messages, 10000, 2, 16384);
    push_uniform(&mut messages, 1, 1000, 16384);
    let std_vec: Vec<(i64, i64)> = Vec::new();
    TrafficPattern { pattern_type: RntiMatchingTrafficPatternType::U, messages, std_vec }
}

/// Preset X: 20 s of 64 kB packets every ms.
pub fn pattern_x() -> (r: TrafficPattern)
    ensures
        r.pattern_type == RntiMatchingTrafficPatternType::X,
        r.messages@.len() == 20001,
{
    let mut messages: Vec<TrafficPatternMessage> = Vec::new();
    push_uniform(&mut messages, 20000, 1, 64000);
    push_uniform(&mut messages, 1, 1000, 64000);
    let std_vec: Vec<(i64, i64)> = Vec::new();
    TrafficPattern { pattern_type: RntiMatchingTrafficPatternType::X, messages, std_vec }
}

/// Preset V: 10 s of linearly growing packets, then preset I, then
/// one big trailer.
pub fn pattern_v() -> (r: TrafficPattern)
    ensures
        r.pattern_type == RntiMatchingTrafficPatternType::V,
        r.messages@.len() == 1000 + 2001 + 1,
{
    let mut messages: Vec<TrafficPatternMessage> = Vec::new();
    let mut i: usize = 0;
    while i < 1000
        invariant
            0 <= i <= 1000,
            messages@.len() == i,
        decreases 1000 - i,
    {
        messages.push(TrafficPatternMessage { time_ms: 10, payload: vec![0xA0; 200 + i] });
        i = i + 1;
    }
    let tail = pattern_i();
    let mut j: usize = 0;
    while j < tail.messages.len()
        invariant
            0 <= j <= tail.messages@.len(),
            tail.messages@.len() == 2001,
            messages@.len() == 1000 + j,
        decreases tail.messages@.len() - j,
    {
        let msg = tail.messages[j].clone();
        messages.push(msg);
        j = j + 1;
    }
    push_uniform(&mut messages, 1, 2000, 64000);
    let std_vec: Vec<(i64, i64)> = Vec::new();
    TrafficPattern { pattern_type: RntiMatchingTrafficPatternType::V, messages, std_vec }
}

/// Preset W: like V with larger growing packets.
pub fn pattern_w() -> (r: TrafficPattern)
    ensures
        r.pattern_type == RntiMatchingTrafficPatternType::W,
        r.messages@.len() == 1000 + 2001 + 1,
{
    let mut messages: Vec<TrafficPatternMessage> = Vec::new();
    let mut i: usize = 0;
    while i < 1000
        invariant
            0 <= i <= 1000,
            messages@.len() == i,
        decreases 1000 - i,
    {
        messages.push(TrafficPatternMessage { time_ms: 10, payload: vec![0xA0; 500 + 10 * i] });
        i = i + 1;
    }
    let tail = pattern_i();
    let mut j: usize = 0;
    while j < tail.messages.len()
        invariant
            0 <= j <= tail.messages@.len(),
            tail.messages@.len() == 2001,
            messages@.len() == 1000 + j,
        decreases tail.messages@.len() - j,
    {
        let msg = tail.messages[j].clone();
        messages.push(msg);
        j = j + 1;
    }
    push_uniform(&mut messages, 1, 2000, 64000);
    let std_vec: Vec<(i64, i64)> = Vec::new();
    TrafficPattern { pattern_type: RntiMatchingTrafficPatternType::W, messages, std_vec }
}

/// Preset Y: about 22 s of packets growing by powers of two on a 500 B
/// base.
pub fn pattern_y() -> (r: TrafficPattern)
    ensures
        r.pattern_type == RntiMatchingTrafficPatternType::Y,
        r.messages@.len() == 4001,
{
    let mut messages: Vec<TrafficPatternMessage> = Vec::new();
    let mut extra: usize = 1;
    let mut i: usize = 0;
    while i < 4000
        invariant
            0 <= i <= 4000,
            messages@.len() == i,
            extra == pow2(
                if i <= 15 {
                    i as nat
                } else {
                    15
                },
            ),
            extra <= 0x8000,
        decreases 4000 - i,
    {
        messages.push(TrafficPatternMessage { time_ms: 5, payload: vec![0xA0; 500 + extra] });
        if i < 15 {
            proof {
                lemma_pow2_monotone((i + 1) as nat, 15);
                lemma_pow2_values();
            }
            extra = extra * 2;
        }
        i = i + 1;
    }
    push_uniform(&mut messages, 1, 2000, 16384);
    let std_vec: Vec<(i64, i64)> = Vec::new();
    TrafficPattern { pattern_type: RntiMatchingTrafficPatternType::Y, messages, std_vec }
}

/// Preset Z: 18 s of packets growing by powers of two on a 500 B base,
/// 3 ms apart, with a 4 s trailer.
pub fn pattern_z() -> (r: TrafficPattern)
    ensures
        r.pattern_type == RntiMatchingTrafficPatternType::Z,
        r.messages@.len() == 6001,
{
    let mut messages: Vec<TrafficPatternMessage> = Vec::new();
    let mut increment: usize = 1;
    let mut i: usize = 0;
    while i < 6000
        invariant
            0 <= i <= 6000,
            messages@.len() == i,
            increment == pow2(
                if i <= 15 {
                    i as nat
                } else {
                    15
                },
            ),
            increment <= 0x8000,
        decreases 6000 - i,
    {
        messages.push(TrafficPatternMessage { time_ms: 3, payload: vec![0xA0; 500 + increment] });
        if i < 15 {
            proof {
                lemma_pow2_monotone((i + 1) as nat, 15);
                lemma_pow2_values();
            }
            increment = increment * 2;
        }
        i = i + 1;
    }
    push_uniform(&mut messages, 1, 4000, 32768);
    let std_vec: Vec<(i64, i64)> = Vec::new();
    TrafficPattern { pattern_type: RntiMatchingTrafficPatternType::Z, messages, std_vec }
}

} // verus!
