//! Application configuration values and the name of the daily log file.

use vstd::prelude::*;
use crate::wire::dec_digits;
use crate::wire::push_u64;

verus! {

/// Which role this node plays.
#[derive(Clone, Copy, Debug, PartialEq, Eq, Structural)]
pub enum AppMode {
    Master,
    Slave,
}

/// Where a slave finds its master.
#[derive(Clone, Debug, PartialEq)]
pub struct NetworkConfig {
    pub host: String,
    pub port: u16,
}

/// How to reach the broadcasting application's control API.
#[derive(Clone, Debug, PartialEq)]
pub struct OBSSettings {
    pub host: String,
    pub port: u16,
    pub password: String,
}

/// The master's defaults.
#[derive(Clone, Copy, Debug, PartialEq, Eq, Structural)]
pub struct MasterSettings {
    pub default_port: u16,
}

/// The slave's defaults.
#[derive(Clone, Debug, PartialEq)]
pub struct SlaveSettings {
    pub default_host: String,
    pub default_port: u16,
}

/// Everything the shell persists between runs.
#[derive(Clone, Debug, PartialEq)]
pub struct AppSettings {
    pub obs: OBSSettings,
    pub master: MasterSettings,
    pub slave: SlaveSettings,
}

impl Default for AppSettings {
    /// The out-of-the-box settings: the control API on the local machine's
    /// default port, replication on port 8080.
    fn default() -> (r: AppSettings)
        ensures
            r.obs.host@ == ("localhost")@,
            r.obs.port == 4455,
            r.obs.password@.len() == 0,
            r.master.default_port == 8080,
            r.slave.default_host@ == ("192.168.1.100")@,
            r.slave.default_port == 8080,
    {
        AppSettings {
            obs: OBSSettings {
                host: String::from_str("localhost"),
                port: 4455,
                password: String::new(),
            },
            master: MasterSettings { default_port: 8080 },
            slave: SlaveSettings {
                default_host: String::from_str("192.168.1.100"),
                default_port: 8080,
            },
        }
    }
}

/// A number zero-padded on the left to at least `width` digits.
pub open spec fn padded_dec(n: nat, width: nat) -> Seq<char>
    decreases width,
{
    if dec_digits(n).len() >= width {
        dec_digits(n)
    } else {
        Seq::new((width - dec_digits(n).len()) as nat, |i: int| '0') + dec_digits(n)
    }
}

fn push_padded(out: &mut String, n: u64, width: u64)
    requires
        width <= 8,
    ensures
        final(out)@ == old(out)@ + padded_dec(n as nat, width as nat),
{
    let mut digits = String::new();
    push_u64(&mut digits, n);
    let have = digits.as_str().unicode_len();
    if have < width as usize {
        let need = width - have as u64;
        let mut pad: u64 = 0;
        while pad < need
            invariant
                have == dec_digits(n as nat).len(),
                have < width <= 8,
                need == width - have,
                0 <= pad <= need,
                out@ == old(out)@ + Seq::new(pad as nat, |i: int| '0'),
            decreases need - pad,
        {
            out.append("0");
            proof {
                reveal_strlit("0");
                assert(("0")@ =~= seq!['0']);
                assert(out@ =~= old(out)@ + Seq::new((pad + 1) as nat, |i: int| '0'));
            }
            pad += 1;
        }
        out.append(digits.as_str());
        proof {
            assert(final(out)@ =~= old(out)@ + padded_dec(n as nat, width as nat));
        }
    } else {
        out.append(digits.as_str());
        proof {
            assert(final(out)@ =~= old(out)@ + padded_dec(n as nat, width as nat));
        }
    }
}

/// The name of the log file for a calendar day: `obs-sync-YYYY-MM-DD.log`,
/// with the month and day zero-padded to two digits.
pub open spec fn log_file_name_spec(year: nat, month: nat, day: nat) -> Seq<char> {
    ("obs-sync-")@ + padded_dec(year, 4) + ("-")@ + padded_dec(month, 2) + ("-")@ + padded_dec(
        day,
        2,
    ) + (".log")@
}

/// Builds the daily log file's name from a calendar date.
pub fn log_file_name(year: u64, month: u64, day: u64) -> (r: String)
    ensures
        r@ == log_file_name_spec(year as nat, month as nat, day as nat),
{
    let mut out = String::from_str("obs-sync-");
    push_padded(&mut out, year, 4);
    out.append("-");
    push_padded(&mut out, month, 2);
    out.append("-");
    push_padded(&mut out, day, 2);
    out.append(".log");
    out
}

} // verus!
