//! Configuration handed to the external sniffer process.

use vstd::prelude::*;
use vstd::string::{StrSliceExecFns, StringExecFns};

verus! {

/// One RF device of the sniffer.
#[derive(Clone, Debug)]
#[allow(non_snake_case)]
pub struct NgScopeConfigRfDev {
    pub rf_freq: u64,
    pub N_id_2: i16,
    pub rf_args: String,
    pub nof_thread: u8,
    pub disable_plot: Option<bool>,
    pub log_dl: Option<bool>,
    pub log_ul: Option<bool>,
    pub log_phich: Option<bool>,
}

/// DCI log settings of the sniffer.
#[derive(Clone, Copy, Debug, PartialEq, Eq, Structural)]
pub struct NgScopeConfigDciLog {
    pub nof_cell: u16,
    pub log_ul: bool,
    pub log_dl: bool,
    pub log_interval: u16,
}

/// The whole sniffer configuration.
#[derive(Clone, Debug)]
pub struct NgScopeConfig {
    pub nof_rf_dev: u16,
    pub rnti: u16,
    pub remote_enable: Option<bool>,
    pub decode_single_ue: Option<bool>,
    pub decode_sib: Option<bool>,
    pub dci_logs_path: Option<String>,
    pub sib_logs_path: Option<String>,
    pub dci_log_config: Option<NgScopeConfigDciLog>,
    pub rf_config0: Option<NgScopeConfigRfDev>,
    pub rf_config1: Option<NgScopeConfigRfDev>,
    pub rf_config2: Option<NgScopeConfigRfDev>,
    pub rf_config3: Option<NgScopeConfigRfDev>,
    pub rf_config4: Option<NgScopeConfigRfDev>,
}

impl Default for NgScopeConfigRfDev {
    /// The stock RF device: 796 MHz, automatic cell selection, four
    /// threads.
    fn default() -> (r: NgScopeConfigRfDev)
        ensures
            r.rf_freq == 796000000,
            r.N_id_2 == -1,
            r.rf_args@ == "serial=3295B62"@,
            r.nof_thread == 4,
            r.disable_plot is None && r.log_dl is None && r.log_ul is None && r.log_phich is None,
    {
        NgScopeConfigRfDev {
            rf_freq: 796000000,
            N_id_2: -1,
            rf_args: String::from_str("serial=3295B62"),
            nof_thread: 4,
            disable_plot: None,
            log_dl: None,
            log_ul: None,
            log_phich: None,
        }
    }
}

impl Default for NgScopeConfigDciLog {
    /// One cell, no logs, a five-subframe interval.
    fn default() -> (r: NgScopeConfigDciLog)
        ensures
            r.nof_cell == 1,
            !r.log_ul && !r.log_dl,
            r.log_interval == 5,
    {
        NgScopeConfigDciLog { nof_cell: 1, log_ul: false, log_dl: false, log_interval: 5 }
    }
}

impl Default for NgScopeConfig {
    /// One RF device with the stock settings, the broadcast RNTI, and a
    /// default DCI log block.
    fn default() -> (r: NgScopeConfig)
        ensures
            r.nof_rf_dev == 1,
            r.rnti == 0xffff,
            r.remote_enable is None && r.decode_single_ue is None && r.decode_sib is None,
            r.dci_logs_path is None && r.sib_logs_path is None,
            r.dci_log_config is Some,
            r.rf_config0 is Some,
            r.rf_config1 is None && r.rf_config2 is None && r.rf_config3 is None && r.rf_config4
                is None,
    {
        NgScopeConfig {
            nof_rf_dev: 1,
            rnti: 0xffff,
            remote_enable: None,
            decode_single_ue: None,
            decode_sib: None,
            dci_logs_path: None,
            sib_logs_path: None,
            dci_log_config: Some(NgScopeConfigDciLog::default()),
            rf_config0: Some(NgScopeConfigRfDev::default()),
            rf_config1: None,
            rf_config2: None,
            rf_config3: None,
            rf_config4: None,
        }
    }
}

/// The characters of an ASCII string, as bytes.
pub open spec fn ascii_bytes(s: Seq<char>) -> Seq<u8> {
    Seq::new(s.len(), |i: int| s[i] as u8)
}

/// The decimal digits of `n`, most significant first.
pub open spec fn dec_bytes(n: nat) -> Seq<u8>
    decreases n,
{
    if n < 10 {
        seq![(48 + n) as u8]
    } else {
        dec_bytes(n / 10).push((48 + n % 10) as u8)
    }
}

/// The rendering of a signed number: a minus sign where needed.
pub open spec fn dec_bytes_signed(n: int) -> Seq<u8> {
    if n < 0 {
        seq![45u8] + dec_bytes((-n) as nat)
    } else {
        dec_bytes(n as nat)
    }
}

/// The rendering of a boolean.
pub open spec fn bool_bytes(b: bool) -> Seq<u8> {
    if b {
        ascii_bytes("true"@)
    } else {
        ascii_bytes("false"@)
    }
}

/// One `name = value;` line.
pub open spec fn line_bytes(name: Seq<char>, value: Seq<u8>) -> Seq<u8> {
    ascii_bytes(name) + ascii_bytes(" = "@) + value + ascii_bytes(";\n"@)
}

/// The rendering of the DCI log block.
pub open spec fn dci_log_bytes(c: NgScopeConfigDciLog) -> Seq<u8> {
    ascii_bytes("dci_log_config = {\n    "@) + line_bytes("nof_cell"@, dec_bytes(c.nof_cell as nat))
        + ascii_bytes("    "@) + line_bytes("log_ul"@, bool_bytes(c.log_ul)) + ascii_bytes("    "@)
        + line_bytes("log_dl"@, bool_bytes(c.log_dl)) + ascii_bytes("    "@) + line_bytes(
        "log_interval"@,
        dec_bytes(c.log_interval as nat),
    ) + ascii_bytes("};\n"@)
}

/// The rendering of one RF device block under the given name.
pub open spec fn rf_dev_bytes(name: Seq<char>, rf: NgScopeConfigRfDev) -> Seq<u8> {
    ascii_bytes(name) + ascii_bytes(" = {\n    "@) + line_bytes(
        "rf_freq"@,
        dec_bytes(rf.rf_freq as nat),
    ) + ascii_bytes("    "@) + line_bytes("N_id_2"@, dec_bytes_signed(rf.N_id_2 as int))
        + ascii_bytes("    "@) + line_bytes(
        "rf_args"@,
        seq![34u8] + ascii_bytes(rf.rf_args@) + seq![34u8],
    ) + ascii_bytes("    "@) + line_bytes("nof_thread"@, dec_bytes(rf.nof_thread as nat))
        + ascii_bytes("};\n"@)
}

/// The whole rendered configuration: the two scalar lines, then the
/// DCI log block and the first RF device where present.
pub open spec fn config_bytes(c: NgScopeConfig) -> Seq<u8> {
    line_bytes("nof_rf_dev"@, dec_bytes(c.nof_rf_dev as nat)) + line_bytes(
        "rnti"@,
        dec_bytes(c.rnti as nat),
    ) + (match c.dci_log_config {
        Some(d) => dci_log_bytes(d),
        None => Seq::empty(),
    }) + (match c.rf_config0 {
        Some(rf) => rf_dev_bytes("rf_config0"@, rf),
        None => Seq::empty(),
    })
}

/// Appends a string's characters as bytes (exact for ASCII text, which
/// is all the configuration holds).
fn push_ascii(out: &mut Vec<u8>, s: &str)
    ensures
        final(out)@ =~= old(out)@ + ascii_bytes(s@),
{
    let n: usize = s.unicode_len();
    let mut i: usize = 0;
    while i < n
        invariant
            0 <= i <= n,
            n == s@.len(),
            out@ =~= old(out)@ + ascii_bytes(s@).take(i as int),
        decreases n - i,
    {
        let c: char = s.get_char(i);
        out.push(c as u8);
        proof {
            assert(out@ =~= old(out)@ + ascii_bytes(s@).take(i + 1));
        }
        i = i + 1;
    }
    proof {
        assert(ascii_bytes(s@).take(n as int) =~= ascii_bytes(s@));
    }
}

/// Appends the decimal digits of `n`.
fn push_dec(out: &mut Vec<u8>, n: u64)
    ensures
        final(out)@ =~= old(out)@ + dec_bytes(n as nat),
    decreases n,
{
    if n < 10 {
        out.push(48 + n as u8);
    } else {
        push_dec(out, n / 10);
        out.push(48 + (n % 10) as u8);
    }
}

/// Appends a signed number.
fn push_dec_signed(out: &mut Vec<u8>, n: i64)
    requires
        n > i64::MIN,
    ensures
        final(out)@ =~= old(out)@ + dec_bytes_signed(n as int),
{
    if n < 0 {
        out.push(45);
        push_dec(out, (-n) as u64);
    } else {
        push_dec(out, n as u64);
    }
}

/// Appends a boolean.
fn push_bool(out: &mut Vec<u8>, b: bool)
    ensures
        final(out)@ =~= old(out)@ + bool_bytes(b),
{
    if b {
        push_ascii(out, "true");
    } else {
        push_ascii(out, "false");
    }
}

/// Appends one `name = value;` line, with the value pushed by the
/// given step.
fn push_line_prefix(out: &mut Vec<u8>, name: &str)
    ensures
        final(out)@ =~= old(out)@ + ascii_bytes(name@) + ascii_bytes(" = "@),
{
    push_ascii(out, name);
    push_ascii(out, " = ");
}

fn push_line_suffix(out: &mut Vec<u8>)
    ensures
        final(out)@ =~= old(out)@ + ascii_bytes(";\n"@),
{
    push_ascii(out, ";\n");
}

/// Appends the DCI log block.
#[verifier::rlimit(100)]
fn push_dci_log_block(out: &mut Vec<u8>, dci_log: &NgScopeConfigDciLog)
    ensures
        final(out)@ =~= old(out)@ + dci_log_bytes(*dci_log),
{
    push_ascii(out, "dci_log_config = {\n    ");
    push_line_prefix(out, "nof_cell");
    push_dec(out, dci_log.nof_cell as u64);
    push_line_suffix(out);
    push_ascii(out, "    ");
    push_line_prefix(out, "log_ul");
    push_bool(out, dci_log.log_ul);
    push_line_suffix(out);
    push_ascii(out, "    ");
    push_line_prefix(out, "log_dl");
    push_bool(out, dci_log.log_dl);
    push_line_suffix(out);
    push_ascii(out, "    ");
    push_line_prefix(out, "log_interval");
    push_dec(out, dci_log.log_interval as u64);
    push_line_suffix(out);
    push_ascii(out, "};\n");
    proof {
        assert(final(out)@ =~= old(out)@ + dci_log_bytes(*dci_log));
    }
}

/// Appends the first RF device block.
#[verifier::rlimit(100)]
fn push_rf_dev_block(out: &mut Vec<u8>, rf: &NgScopeConfigRfDev)
    ensures
        final(out)@ =~= old(out)@ + rf_dev_bytes("rf_config0"@, *rf),
{
    push_ascii(out, "rf_config0");
    push_ascii(out, " = {\n    ");
    push_line_prefix(out, "rf_freq");
    push_dec(out, rf.rf_freq);
    push_line_suffix(out);
    push_ascii(out, "    ");
    push_line_prefix(out, "N_id_2");
    push_dec_signed(out, rf.N_id_2 as i64);
    push_line_suffix(out);
    push_ascii(out, "    ");
    push_line_prefix(out, "rf_args");
    out.push(34);
    push_ascii(out, rf.rf_args.as_str());
    out.push(34);
    push_line_suffix(out);
    push_ascii(out, "    ");
    push_line_prefix(out, "nof_thread");
    push_dec(out, rf.nof_thread as u64);
    push_line_suffix(out);
    push_ascii(out, "};\n");
    proof {
        assert(final(out)@ =~= old(out)@ + rf_dev_bytes("rf_config0"@, *rf));
    }
}

/// Renders the configuration into the text the sniffer reads: every
/// line and block exactly as `config_bytes` lays them out.
pub fn render_config(config: &NgScopeConfig) -> (r: Vec<u8>)
    ensures
        r@ =~= config_bytes(*config),
{
    let mut out: Vec<u8> = Vec::new();
    push_line_prefix(&mut out, "nof_rf_dev");
    push_dec(&mut out, config.nof_rf_dev as u64);
    push_line_suffix(&mut out);
    push_line_prefix(&mut out, "rnti");
    push_dec(&mut out, config.rnti as u64);
    push_line_suffix(&mut out);
    let ghost scalar_part = line_bytes("nof_rf_dev"@, dec_bytes(config.nof_rf_dev as nat))
        + line_bytes("rnti"@, dec_bytes(config.rnti as nat));
    proof {
        assert(out@ =~= scalar_part);
    }
    if let Some(dci_log) = &config.dci_log_config {
        push_dci_log_block(&mut out, dci_log);
    }
    let ghost mid_part = scalar_part + (match config.dci_log_config {
        Some(d) => dci_log_bytes(d),
        None => Seq::empty(),
    });
    proof {
        assert(out@ =~= mid_part);
    }
    if let Some(rf) = &config.rf_config0 {
        push_rf_dev_block(&mut out, rf);
    }
    proof {
        assert(out@ =~= config_bytes(*config));
    }
    out
}

} // verus!
