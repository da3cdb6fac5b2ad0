//! Graphics adapters: naming AMD devices, reading AMD memory figures from
//! sysfs, the PCI fallback scan, and combining what each source finds.
//!
//! The sysfs files are read by the caller; these functions take their
//! contents (`None` where a file could not be read).
use vstd::prelude::*;

use crate::num::parse_unsigned;
use crate::num::{parse_radix, parse_signed, parse_signed_decimal};
use crate::proc_net::{colon_at, has_two_parts, port_part};
use crate::text::{
    char_pred, chars_eq, chars_of, contains, contains_seq, copy_range, find_char, find_from,
    has_prefix, lemma_find_from, lines_of, owned, split_lines, starts_with, string_of, trim,
    trim_chars, uppercase, to_uppercase, views, is_ascii_text, ascii_upper_char,
};
use crate::types::opt_view;

verus! {

/// What the library knows of a graphics adapter apart from its live
/// readings (utilisation, temperature, power, fan).
pub struct GpuInfo {
    pub index: u32,
    pub name: String,
    pub brand: String,
    pub driver_version: String,
    pub memory_total_bytes: u64,
    pub memory_used_bytes: u64,
    pub memory_free_bytes: u64,
}

/// The view of a [`GpuInfo`].
pub struct GpuInfoView {
    pub index: u32,
    pub name: Seq<char>,
    pub brand: Seq<char>,
    pub driver_version: Seq<char>,
    pub memory_total_bytes: u64,
    pub memory_used_bytes: u64,
    pub memory_free_bytes: u64,
}

impl View for GpuInfo {
    type V = GpuInfoView;

    open spec fn view(&self) -> GpuInfoView {
        GpuInfoView {
            index: self.index,
            name: self.name@,
            brand: self.brand@,
            driver_version: self.driver_version@,
            memory_total_bytes: self.memory_total_bytes,
            memory_used_bytes: self.memory_used_bytes,
            memory_free_bytes: self.memory_free_bytes,
        }
    }
}

/// The views of a sequence of adapters.
pub open spec fn gpu_views(v: Seq<GpuInfo>) -> Seq<GpuInfoView> {
    v.map_values(|g: GpuInfo| g@)
}

/// The marketing name of an AMD device, by upper-case `VENDOR:DEVICE` id.
pub open spec fn amd_model(id: Seq<char>) -> Option<Seq<char>> {
    if id == "1002:13FE"@ {
        Some("AMD Radeon RX 6750 GRE"@)
    } else if id == "1002:1478"@ {
        Some("AMD Radeon RX 6800"@)
    } else if id == "1002:1479"@ {
        Some("AMD Radeon RX 6800 XT"@)
    } else if id == "1002:147A"@ {
        Some("AMD Radeon RX 6800M"@)
    } else if id == "1002:147B"@ {
        Some("AMD Radeon RX 6850M XT"@)
    } else if id == "1002:1480"@ {
        Some("AMD Radeon RX 6900 XT"@)
    } else if id == "1002:1481"@ {
        Some("AMD Radeon RX 6900 XTX"@)
    } else if id == "1002:1485"@ {
        Some("AMD Radeon RX 6600 XT"@)
    } else if id == "1002:1486"@ {
        Some("AMD Radeon RX 6600"@)
    } else if id == "1002:1487"@ {
        Some("AMD Radeon RX 6600M"@)
    } else if id == "1002:1488"@ {
        Some("AMD Radeon RX 6500 XT"@)
    } else if id == "1002:1489"@ {
        Some("AMD Radeon RX 6500"@)
    } else if id == "1002:15BF"@ {
        Some("AMD Radeon RX 7900 XTX"@)
    } else if id == "1002:15C0"@ {
        Some("AMD Radeon RX 7900 XT"@)
    } else if id == "1002:15C1"@ {
        Some("AMD Radeon RX 7900 GRE"@)
    } else if id == "1002:15C2"@ {
        Some("AMD Radeon RX 7800 XT"@)
    } else if id == "1002:15C3"@ {
        Some("AMD Radeon RX 7800M"@)
    } else if id == "1002:15C4"@ {
        Some("AMD Radeon RX 7700 XT"@)
    } else if id == "1002:15C5"@ {
        Some("AMD Radeon RX 7700M"@)
    } else if id == "1002:15C6"@ {
        Some("AMD Radeon RX 7600 XT"@)
    } else if id == "1002:15C7"@ {
        Some("AMD Radeon RX 7600"@)
    } else if id == "1002:15C8"@ {
        Some("AMD Radeon RX 7600M"@)
    } else if id == "1002:15D8"@ {
        Some("AMD Radeon RX 7500 XT"@)
    } else if id == "1002:15D9"@ {
        Some("AMD Radeon RX 7600M XT"@)
    } else if id == "1002:15E3"@ {
        Some("AMD Radeon RX 7700S"@)
    } else if id == "1002:15E7"@ {
        Some("AMD Radeon RX 7600S"@)
    } else if id == "1002:6810"@ {
        Some("AMD Radeon RX 590"@)
    } else if id == "1002:6811"@ {
        Some("AMD Radeon RX 580"@)
    } else if id == "1002:6812"@ {
        Some("AMD Radeon RX 570"@)
    } else if id == "1002:6818"@ {
        Some("AMD Radeon RX 560"@)
    } else if id == "1002:6819"@ {
        Some("AMD Radeon RX 560"@)
    } else if id == "1002:6820"@ {
        Some("AMD Radeon RX 550"@)
    } else if id == "1002:6821"@ {
        Some("AMD Radeon RX 550"@)
    } else if id == "1002:6823"@ {
        Some("AMD Radeon RX 540"@)
    } else if id == "1002:687F"@ {
        Some("AMD Radeon Vega Frontier Edition"@)
    } else if id == "1002:6880"@ {
        Some("AMD Radeon RX Vega 56"@)
    } else if id == "1002:6881"@ {
        Some("AMD Radeon RX Vega 64"@)
    } else if id == "1002:6888"@ {
        Some("AMD Radeon Vega 56 Mobile"@)
    } else if id == "1002:6889"@ {
        Some("AMD Radeon Vega 64 Mobile"@)
    } else if id == "1002:69AF"@ {
        Some("AMD Radeon VII"@)
    } else if id == "1002:15DD"@ {
        Some("AMD Radeon RX Vega 11 (APU)"@)
    } else if id == "1002:15D7"@ {
        Some("AMD Radeon Vega 8 (APU)"@)
    } else if id == "1002:15D6"@ {
        Some("AMD Radeon Vega 6 (APU)"@)
    } else if id == "1002:7340"@ {
        Some("AMD Radeon RX 7600M XT"@)
    } else if id == "1002:7341"@ {
        Some("AMD Radeon RX 7600M"@)
    } else if id == "1002:7347"@ {
        Some("AMD Radeon RX 7700M"@)
    } else {
        None
    }
}

/// The marketing name of an AMD device, by upper-case id.
fn amd_model_name(id: &Vec<char>) -> (r: Option<String>)
    ensures
        opt_view(r) == amd_model(id@),
{
    if chars_eq(id, &chars_of("1002:13FE")) {
        Some(owned("AMD Radeon RX 6750 GRE"))
    } else if chars_eq(id, &chars_of("1002:1478")) {
        Some(owned("AMD Radeon RX 6800"))
    } else if chars_eq(id, &chars_of("1002:1479")) {
        Some(owned("AMD Radeon RX 6800 XT"))
    } else if chars_eq(id, &chars_of("1002:147A")) {
        Some(owned("AMD Radeon RX 6800M"))
    } else if chars_eq(id, &chars_of("1002:147B")) {
        Some(owned("AMD Radeon RX 6850M XT"))
    } else if chars_eq(id, &chars_of("1002:1480")) {
        Some(owned("AMD Radeon RX 6900 XT"))
    } else if chars_eq(id, &chars_of("1002:1481")) {
        Some(owned("AMD Radeon RX 6900 XTX"))
    } else if chars_eq(id, &chars_of("1002:1485")) {
        Some(owned("AMD Radeon RX 6600 XT"))
    } else if chars_eq(id, &chars_of("1002:1486")) {
        Some(owned("AMD Radeon RX 6600"))
    } else if chars_eq(id, &chars_of("1002:1487")) {
        Some(owned("AMD Radeon RX 6600M"))
    } else if chars_eq(id, &chars_of("1002:1488")) {
        Some(owned("AMD Radeon RX 6500 XT"))
    } else if chars_eq(id, &chars_of("1002:1489")) {
        Some(owned("AMD Radeon RX 6500"))
    } else if chars_eq(id, &chars_of("1002:15BF")) {
        Some(owned("AMD Radeon RX 7900 XTX"))
    } else if chars_eq(id, &chars_of("1002:15C0")) {
        Some(owned("AMD Radeon RX 7900 XT"))
    } else if chars_eq(id, &chars_of("1002:15C1")) {
        Some(owned("AMD Radeon RX 7900 GRE"))
    } else if chars_eq(id, &chars_of("1002:15C2")) {
        Some(owned("AMD Radeon RX 7800 XT"))
    } else if chars_eq(id, &chars_of("1002:15C3")) {
        Some(owned("AMD Radeon RX 7800M"))
    } else if chars_eq(id, &chars_of("1002:15C4")) {
        Some(owned("AMD Radeon RX 7700 XT"))
    } else if chars_eq(id, &chars_of("1002:15C5")) {
        Some(owned("AMD Radeon RX 7700M"))
    } else if chars_eq(id, &chars_of("1002:15C6")) {
        Some(owned("AMD Radeon RX 7600 XT"))
    } else if chars_eq(id, &chars_of("1002:15C7")) {
        Some(owned("AMD Radeon RX 7600"))
    } else if chars_eq(id, &chars_of("1002:15C8")) {
        Some(owned("AMD Radeon RX 7600M"))
    } else if chars_eq(id, &chars_of("1002:15D8")) {
        Some(owned("AMD Radeon RX 7500 XT"))
    } else if chars_eq(id, &chars_of("1002:15D9")) {
        Some(owned("AMD Radeon RX 7600M XT"))
    } else if chars_eq(id, &chars_of("1002:15E3")) {
        Some(owned("AMD Radeon RX 7700S"))
    } else if chars_eq(id, &chars_of("1002:15E7")) {
        Some(owned("AMD Radeon RX 7600S"))
    } else if chars_eq(id, &chars_of("1002:6810")) {
        Some(owned("AMD Radeon RX 590"))
    } else if chars_eq(id, &chars_of("1002:6811")) {
        Some(owned("AMD Radeon RX 580"))
    } else if chars_eq(id, &chars_of("1002:6812")) {
        Some(owned("AMD Radeon RX 570"))
    } else if chars_eq(id, &chars_of("1002:6818")) {
        Some(owned("AMD Radeon RX 560"))
    } else if chars_eq(id, &chars_of("1002:6819")) {
        Some(owned("AMD Radeon RX 560"))
    } else if chars_eq(id, &chars_of("1002:6820")) {
        Some(owned("AMD Radeon RX 550"))
    } else if chars_eq(id, &chars_of("1002:6821")) {
        Some(owned("AMD Radeon RX 550"))
    } else if chars_eq(id, &chars_of("1002:6823")) {
        Some(owned("AMD Radeon RX 540"))
    } else if chars_eq(id, &chars_of("1002:687F")) {
        Some(owned("AMD Radeon Vega Frontier Edition"))
    } else if chars_eq(id, &chars_of("1002:6880")) {
        Some(owned("AMD Radeon RX Vega 56"))
    } else if chars_eq(id, &chars_of("1002:6881")) {
        Some(owned("AMD Radeon RX Vega 64"))
    } else if chars_eq(id, &chars_of("1002:6888")) {
        Some(owned("AMD Radeon Vega 56 Mobile"))
    } else if chars_eq(id, &chars_of("1002:6889")) {
        Some(owned("AMD Radeon Vega 64 Mobile"))
    } else if chars_eq(id, &chars_of("1002:69AF")) {
        Some(owned("AMD Radeon VII"))
    } else if chars_eq(id, &chars_of("1002:15DD")) {
        Some(owned("AMD Radeon RX Vega 11 (APU)"))
    } else if chars_eq(id, &chars_of("1002:15D7")) {
        Some(owned("AMD Radeon Vega 8 (APU)"))
    } else if chars_eq(id, &chars_of("1002:15D6")) {
        Some(owned("AMD Radeon Vega 6 (APU)"))
    } else if chars_eq(id, &chars_of("1002:7340")) {
        Some(owned("AMD Radeon RX 7600M XT"))
    } else if chars_eq(id, &chars_of("1002:7341")) {
        Some(owned("AMD Radeon RX 7600M"))
    } else if chars_eq(id, &chars_of("1002:7347")) {
        Some(owned("AMD Radeon RX 7700M"))
    } else {
        None
    }
}

/// The AMD model table, id by id: each listed upper-case `VENDOR:DEVICE` PCI
/// id and the marketing name it stands for.
#[verifier::rlimit(50)]
pub proof fn lemma_amd_model_table()
    ensures
        amd_model("1002:13FE"@) == Some("AMD Radeon RX 6750 GRE"@),
        amd_model("1002:1478"@) == Some("AMD Radeon RX 6800"@),
        amd_model("1002:1479"@) == Some("AMD Radeon RX 6800 XT"@),
        amd_model("1002:147A"@) == Some("AMD Radeon RX 6800M"@),
        amd_model("1002:147B"@) == Some("AMD Radeon RX 6850M XT"@),
        amd_model("1002:1480"@) == Some("AMD Radeon RX 6900 XT"@),
        amd_model("1002:1481"@) == Some("AMD Radeon RX 6900 XTX"@),
        amd_model("1002:1485"@) == Some("AMD Radeon RX 6600 XT"@),
        amd_model("1002:1486"@) == Some("AMD Radeon RX 6600"@),
        amd_model("1002:1487"@) == Some("AMD Radeon RX 6600M"@),
        amd_model("1002:1488"@) == Some("AMD Radeon RX 6500 XT"@),
        amd_model("1002:1489"@) == Some("AMD Radeon RX 6500"@),
        amd_model("1002:15BF"@) == Some("AMD Radeon RX 7900 XTX"@),
        amd_model("1002:15C0"@) == Some("AMD Radeon RX 7900 XT"@),
        amd_model("1002:15C1"@) == Some("AMD Radeon RX 7900 GRE"@),
        amd_model("1002:15C2"@) == Some("AMD Radeon RX 7800 XT"@),
        amd_model("1002:15C3"@) == Some("AMD Radeon RX 7800M"@),
        amd_model("1002:15C4"@) == Some("AMD Radeon RX 7700 XT"@),
        amd_model("1002:15C5"@) == Some("AMD Radeon RX 7700M"@),
        amd_model("1002:15C6"@) == Some("AMD Radeon RX 7600 XT"@),
        amd_model("1002:15C7"@) == Some("AMD Radeon RX 7600"@),
        amd_model("1002:15C8"@) == Some("AMD Radeon RX 7600M"@),
        amd_model("1002:15D8"@) == Some("AMD Radeon RX 7500 XT"@),
        amd_model("1002:15D9"@) == Some("AMD Radeon RX 7600M XT"@),
        amd_model("1002:15E3"@) == Some("AMD Radeon RX 7700S"@),
        amd_model("1002:15E7"@) == Some("AMD Radeon RX 7600S"@),
        amd_model("1002:6810"@) == Some("AMD Radeon RX 590"@),
        amd_model("1002:6811"@) == Some("AMD Radeon RX 580"@),
        amd_model("1002:6812"@) == Some("AMD Radeon RX 570"@),
        amd_model("1002:6818"@) == Some("AMD Radeon RX 560"@),
        amd_model("1002:6819"@) == Some("AMD Radeon RX 560"@),
        amd_model("1002:6820"@) == Some("AMD Radeon RX 550"@),
        amd_model("1002:6821"@) == Some("AMD Radeon RX 550"@),
        amd_model("1002:6823"@) == Some("AMD Radeon RX 540"@),
        amd_model("1002:687F"@) == Some("AMD Radeon Vega Frontier Edition"@),
        amd_model("1002:6880"@) == Some("AMD Radeon RX Vega 56"@),
        amd_model("1002:6881"@) == Some("AMD Radeon RX Vega 64"@),
        amd_model("1002:6888"@) == Some("AMD Radeon Vega 56 Mobile"@),
        amd_model("1002:6889"@) == Some("AMD Radeon Vega 64 Mobile"@),
        amd_model("1002:69AF"@) == Some("AMD Radeon VII"@),
        amd_model("1002:15DD"@) == Some("AMD Radeon RX Vega 11 (APU)"@),
        amd_model("1002:15D7"@) == Some("AMD Radeon Vega 8 (APU)"@),
        amd_model("1002:15D6"@) == Some("AMD Radeon Vega 6 (APU)"@),
        amd_model("1002:7340"@) == Some("AMD Radeon RX 7600M XT"@),
        amd_model("1002:7341"@) == Some("AMD Radeon RX 7600M"@),
        amd_model("1002:7347"@) == Some("AMD Radeon RX 7700M"@),
{
    reveal_strlit("1002:13FE");
    reveal_strlit("1002:1478");
    reveal_strlit("1002:1479");
    reveal_strlit("1002:147A");
    reveal_strlit("1002:147B");
    reveal_strlit("1002:1480");
    reveal_strlit("1002:1481");
    reveal_strlit("1002:1485");
    reveal_strlit("1002:1486");
    reveal_strlit("1002:1487");
    reveal_strlit("1002:1488");
    reveal_strlit("1002:1489");
    reveal_strlit("1002:15BF");
    reveal_strlit("1002:15C0");
    reveal_strlit("1002:15C1");
    reveal_strlit("1002:15C2");
    reveal_strlit("1002:15C3");
    reveal_strlit("1002:15C4");
    reveal_strlit("1002:15C5");
    reveal_strlit("1002:15C6");
    reveal_strlit("1002:15C7");
    reveal_strlit("1002:15C8");
    reveal_strlit("1002:15D8");
    reveal_strlit("1002:15D9");
    reveal_strlit("1002:15E3");
    reveal_strlit("1002:15E7");
    reveal_strlit("1002:6810");
    reveal_strlit("1002:6811");
    reveal_strlit("1002:6812");
    reveal_strlit("1002:6818");
    reveal_strlit("1002:6819");
    reveal_strlit("1002:6820");
    reveal_strlit("1002:6821");
    reveal_strlit("1002:6823");
    reveal_strlit("1002:687F");
    reveal_strlit("1002:6880");
    reveal_strlit("1002:6881");
    reveal_strlit("1002:6888");
    reveal_strlit("1002:6889");
    reveal_strlit("1002:69AF");
    reveal_strlit("1002:15DD");
    reveal_strlit("1002:15D7");
    reveal_strlit("1002:15D6");
    reveal_strlit("1002:7340");
    reveal_strlit("1002:7341");
    reveal_strlit("1002:7347");
    assert("1002:13FE"@ =~= seq!['1', '0', '0', '2', ':', '1', '3', 'F', 'E']);
    assert("1002:1478"@ =~= seq!['1', '0', '0', '2', ':', '1', '4', '7', '8']);
    assert("1002:1479"@ =~= seq!['1', '0', '0', '2', ':', '1', '4', '7', '9']);
    assert("1002:147A"@ =~= seq!['1', '0', '0', '2', ':', '1', '4', '7', 'A']);
    assert("1002:147B"@ =~= seq!['1', '0', '0', '2', ':', '1', '4', '7', 'B']);
    assert("1002:1480"@ =~= seq!['1', '0', '0', '2', ':', '1', '4', '8', '0']);
    assert("1002:1481"@ =~= seq!['1', '0', '0', '2', ':', '1', '4', '8', '1']);
    assert("1002:1485"@ =~= seq!['1', '0', '0', '2', ':', '1', '4', '8', '5']);
    assert("1002:1486"@ =~= seq!['1', '0', '0', '2', ':', '1', '4', '8', '6']);
    assert("1002:1487"@ =~= seq!['1', '0', '0', '2', ':', '1', '4', '8', '7']);
    assert("1002:1488"@ =~= seq!['1', '0', '0', '2', ':', '1', '4', '8', '8']);
    assert("1002:1489"@ =~= seq!['1', '0', '0', '2', ':', '1', '4', '8', '9']);
    assert("1002:15BF"@ =~= seq!['1', '0', '0', '2', ':', '1', '5', 'B', 'F']);
    assert("1002:15C0"@ =~= seq!['1', '0', '0', '2', ':', '1', '5', 'C', '0']);
    assert("1002:15C1"@ =~= seq!['1', '0', '0', '2', ':', '1', '5', 'C', '1']);
    assert("1002:15C2"@ =~= seq!['1', '0', '0', '2', ':', '1', '5', 'C', '2']);
    assert("1002:15C3"@ =~= seq!['1', '0', '0', '2', ':', '1', '5', 'C', '3']);
    assert("1002:15C4"@ =~= seq!['1', '0', '0', '2', ':', '1', '5', 'C', '4']);
    assert("1002:15C5"@ =~= seq!['1', '0', '0', '2', ':', '1', '5', 'C', '5']);
    assert("1002:15C6"@ =~= seq!['1', '0', '0', '2', ':', '1', '5', 'C', '6']);
    assert("1002:15C7"@ =~= seq!['1', '0', '0', '2', ':', '1', '5', 'C', '7']);
    assert("1002:15C8"@ =~= seq!['1', '0', '0', '2', ':', '1', '5', 'C', '8']);
    assert("1002:15D8"@ =~= seq!['1', '0', '0', '2', ':', '1', '5', 'D', '8']);
    assert("1002:15D9"@ =~= seq!['1', '0', '0', '2', ':', '1', '5', 'D', '9']);
    assert("1002:15E3"@ =~= seq!['1', '0', '0', '2', ':', '1', '5', 'E', '3']);
    assert("1002:15E7"@ =~= seq!['1', '0', '0', '2', ':', '1', '5', 'E', '7']);
    assert("1002:6810"@ =~= seq!['1', '0', '0', '2', ':', '6', '8', '1', '0']);
    assert("1002:6811"@ =~= seq!['1', '0', '0', '2', ':', '6', '8', '1', '1']);
    assert("1002:6812"@ =~= seq!['1', '0', '0', '2', ':', '6', '8', '1', '2']);
    assert("1002:6818"@ =~= seq!['1', '0', '0', '2', ':', '6', '8', '1', '8']);
    assert("1002:6819"@ =~= seq!['1', '0', '0', '2', ':', '6', '8', '1', '9']);
    assert("1002:6820"@ =~= seq!['1', '0', '0', '2', ':', '6', '8', '2', '0']);
    assert("1002:6821"@ =~= seq!['1', '0', '0', '2', ':', '6', '8', '2', '1']);
    assert("1002:6823"@ =~= seq!['1', '0', '0', '2', ':', '6', '8', '2', '3']);
    assert("1002:687F"@ =~= seq!['1', '0', '0', '2', ':', '6', '8', '7', 'F']);
    assert("1002:6880"@ =~= seq!['1', '0', '0', '2', ':', '6', '8', '8', '0']);
    assert("1002:6881"@ =~= seq!['1', '0', '0', '2', ':', '6', '8', '8', '1']);
    assert("1002:6888"@ =~= seq!['1', '0', '0', '2', ':', '6', '8', '8', '8']);
    assert("1002:6889"@ =~= seq!['1', '0', '0', '2', ':', '6', '8', '8', '9']);
    assert("1002:69AF"@ =~= seq!['1', '0', '0', '2', ':', '6', '9', 'A', 'F']);
    assert("1002:15DD"@ =~= seq!['1', '0', '0', '2', ':', '1', '5', 'D', 'D']);
    assert("1002:15D7"@ =~= seq!['1', '0', '0', '2', ':', '1', '5', 'D', '7']);
    assert("1002:15D6"@ =~= seq!['1', '0', '0', '2', ':', '1', '5', 'D', '6']);
    assert("1002:7340"@ =~= seq!['1', '0', '0', '2', ':', '7', '3', '4', '0']);
    assert("1002:7341"@ =~= seq!['1', '0', '0', '2', ':', '7', '3', '4', '1']);
    assert("1002:7347"@ =~= seq!['1', '0', '0', '2', ':', '7', '3', '4', '7']);
}

/// The predicate "is not `'0'`".
pub open spec fn nonzero_pred() -> spec_fn(char) -> bool {
    |c: char| c != '0'
}

/// `s` without its leading zeros (`trim_start_matches('0')`).
pub open spec fn strip_zeros(s: Seq<char>) -> Seq<char> {
    s.subrange(find_from(s, 0, nonzero_pred()), s.len() as int)
}

/// The name given to an AMD device missing from the table: `"AMD GPU"`
/// followed by the device id without leading zeros, where the id splits into
/// exactly two parts at `':'` and that part is not all zeros.
pub open spec fn amd_fallback_name(pci_id: Seq<char>) -> Seq<char> {
    if has_two_parts(pci_id) && strip_zeros(port_part(pci_id)).len() > 0 {
        "AMD GPU "@ + strip_zeros(port_part(pci_id))
    } else {
        "AMD GPU"@
    }
}

/// The name of an AMD device: the table's name for the upper-cased id, else
/// the fallback built from the id as given.
pub open spec fn amd_gpu_name(pci_id: Seq<char>) -> Seq<char> {
    match amd_model(uppercase(pci_id)) {
        Some(n) => n,
        None => amd_fallback_name(pci_id),
    }
}

proof fn lemma_starts_amd(s: Seq<char>)
    requires
        s.len() >= 4,
        s[0] == 'A' && s[1] == 'M' && s[2] == 'D' && s[3] == ' ',
    ensures
        has_prefix(s, "AMD "@),
{
    reveal_strlit("AMD ");
    assert(s.take(4) =~= "AMD "@);
}

/// Every AMD device name begins with `"AMD "`: a table name, or the
/// fallback `"AMD GPU"` with or without the device id.
pub proof fn lemma_amd_names_start_with_amd(pci_id: Seq<char>)
    ensures
        has_prefix(amd_gpu_name(pci_id), "AMD "@),
{
    reveal_strlit("AMD ");
    reveal_strlit("AMD GPU");
    reveal_strlit("AMD GPU ");
    match amd_model(uppercase(pci_id)) {
        Some(n) => {
        reveal_strlit("AMD Radeon RX 540");
        reveal_strlit("AMD Radeon RX 550");
        reveal_strlit("AMD Radeon RX 560");
        reveal_strlit("AMD Radeon RX 570");
        reveal_strlit("AMD Radeon RX 580");
        reveal_strlit("AMD Radeon RX 590");
        reveal_strlit("AMD Radeon RX 6500");
        reveal_strlit("AMD Radeon RX 6500 XT");
        reveal_strlit("AMD Radeon RX 6600");
        reveal_strlit("AMD Radeon RX 6600 XT");
        reveal_strlit("AMD Radeon RX 6600M");
        reveal_strlit("AMD Radeon RX 6750 GRE");
        reveal_strlit("AMD Radeon RX 6800");
        reveal_strlit("AMD Radeon RX 6800 XT");
        reveal_strlit("AMD Radeon RX 6800M");
        reveal_strlit("AMD Radeon RX 6850M XT");
        reveal_strlit("AMD Radeon RX 6900 XT");
        reveal_strlit("AMD Radeon RX 6900 XTX");
        reveal_strlit("AMD Radeon RX 7500 XT");
        reveal_strlit("AMD Radeon RX 7600");
        reveal_strlit("AMD Radeon RX 7600 XT");
        reveal_strlit("AMD Radeon RX 7600M");
        reveal_strlit("AMD Radeon RX 7600M XT");
        reveal_strlit("AMD Radeon RX 7600S");
        reveal_strlit("AMD Radeon RX 7700 XT");
        reveal_strlit("AMD Radeon RX 7700M");
        reveal_strlit("AMD Radeon RX 7700S");
        reveal_strlit("AMD Radeon RX 7800 XT");
        reveal_strlit("AMD Radeon RX 7800M");
        reveal_strlit("AMD Radeon RX 7900 GRE");
        reveal_strlit("AMD Radeon RX 7900 XT");
        reveal_strlit("AMD Radeon RX 7900 XTX");
        reveal_strlit("AMD Radeon RX Vega 11 (APU)");
        reveal_strlit("AMD Radeon RX Vega 56");
        reveal_strlit("AMD Radeon RX Vega 64");
        reveal_strlit("AMD Radeon VII");
        reveal_strlit("AMD Radeon Vega 56 Mobile");
        reveal_strlit("AMD Radeon Vega 6 (APU)");
        reveal_strlit("AMD Radeon Vega 64 Mobile");
        reveal_strlit("AMD Radeon Vega 8 (APU)");
        reveal_strlit("AMD Radeon Vega Frontier Edition");
            assert(n.len() >= 4 && n[0] == 'A' && n[1] == 'M' && n[2] == 'D' && n[3] == ' ');
            lemma_starts_amd(n);
        },
        None => {
            let f = amd_fallback_name(pci_id);
            assert(f.len() >= 4 && f[0] == 'A' && f[1] == 'M' && f[2] == 'D' && f[3] == ' ');
            lemma_starts_amd(f);
        },
    }
}

fn amd_fallback(id: &Vec<char>) -> (r: String)
    ensures
        r@ == amd_fallback_name(id@),
{
    let c = find_char(id, 0, ':');
    proof {
        lemma_find_from(id@, 0, char_pred(':'));
    }
    if c >= id.len() {
        return owned("AMD GPU");
    }
    let c2 = find_char(id, c + 1, ':');
    if c2 < id.len() {
        return owned("AMD GPU");
    }
    proof {
        lemma_find_from(id@, c + 1, char_pred(':'));
        lemma_find_from(id@, 0, nonzero_pred());
    }
    let dev = copy_range(id, c + 1, id.len());
    let mut z: usize = 0;
    while z < dev.len() && dev[z] == '0'
        invariant
            z <= dev.len(),
            find_from(dev@, 0, nonzero_pred()) == find_from(dev@, z as int, nonzero_pred()),
        decreases dev.len() - z,
    {
        z = z + 1;
    }
    let mut rest = copy_range(&dev, z, dev.len());
    proof {
        lemma_find_from(dev@, z as int, nonzero_pred());
        assert(rest@ == strip_zeros(port_part(id@)));
    }
    if rest.len() == 0 {
        return owned("AMD GPU");
    }
    let mut out = chars_of("AMD GPU ");
    out.append(&mut rest);
    string_of(&out)
}

/// The display name of an AMD device from its `VENDOR:DEVICE` PCI id.
pub fn format_amd_gpu_name(pci_id: &str) -> (r: String)
    ensures
        r@ == amd_gpu_name(pci_id@),
        is_ascii_text(pci_id@) ==> r@ == match amd_model(
            pci_id@.map_values(|c: char| ascii_upper_char(c)),
        ) {
            Some(n) => n,
            None => amd_fallback_name(pci_id@),
        },
{
    let up = to_uppercase(pci_id);
    let upc = chars_of(up.as_str());
    match amd_model_name(&upc) {
        Some(n) => n,
        None => amd_fallback(&chars_of(pci_id)),
    }
}

/// A directory entry of the DRM class that names a whole card (`card0`, not
/// `card0-DP-1`).
pub open spec fn drm_card(name: Seq<char>) -> bool {
    has_prefix(name, "card"@) && !contains_seq(name, "-"@)
}

/// The entry names a whole card.
pub fn is_drm_card(name: &str) -> (b: bool)
    ensures
        b == drm_card(name@),
{
    let n = chars_of(name);
    starts_with(&n, &chars_of("card")) && !contains(&n, &chars_of("-"))
}

/// The vendor file of a card names AMD (`0x1002`).
pub open spec fn amd_vendor(vendor: Option<Seq<char>>) -> bool {
    match vendor {
        Some(v) => trim(v) == "0x1002"@,
        None => false,
    }
}

/// The vendor file's contents name AMD.
pub fn is_amd_vendor(vendor: &Option<String>) -> (b: bool)
    ensures
        b == amd_vendor(opt_view(*vendor)),
{
    match vendor {
        Some(v) => chars_eq(&trim_chars(&chars_of(v.as_str())), &chars_of("0x1002")),
        None => false,
    }
}

/// A sysfs number file: its trimmed contents read as an unsigned 64-bit
/// number, or 0 where the file could not be read or holds no such number.
pub open spec fn sysfs_number(content: Option<Seq<char>>) -> u64 {
    match content {
        Some(c) => match parse_unsigned(trim(c), 10, 0xffff_ffff_ffff_ffff) {
            Some(v) => v as u64,
            None => 0,
        },
        None => 0,
    }
}

/// Reads a sysfs number file's contents.
pub fn read_sysfs_u64(content: &Option<String>) -> (v: u64)
    ensures
        v == sysfs_number(opt_view(*content)),
{
    match content {
        Some(c) => match parse_radix(&trim_chars(&chars_of(c.as_str())), 10, 0xffff_ffff_ffff_ffff) {
            Some(v) => v,
            None => 0,
        },
        None => 0,
    }
}

/// A fan file: its trimmed contents as an unsigned 32-bit number.
pub open spec fn fan_reading(content: Seq<char>) -> Option<u32> {
    match parse_unsigned(trim(content), 10, 0xffff_ffff) {
        Some(v) => Some(v as u32),
        None => None,
    }
}

/// Reads a fan speed file's contents.
pub fn read_hwmon_fan(content: &str) -> (r: Option<u32>)
    ensures
        r == fan_reading(content@),
{
    match parse_radix(&trim_chars(&chars_of(content)), 10, 0xffff_ffff) {
        Some(v) => Some(v as u32),
        None => None,
    }
}

/// A sensor file's trimmed contents read as a signed number in `min..=max`.
pub open spec fn signed_reading(content: Option<Seq<char>>, min: int, max: int) -> Option<int> {
    match content {
        Some(c) => parse_signed(trim(c), min, max),
        None => None,
    }
}

fn read_signed(content: &Option<String>, min: i64, max: i64) -> (r: Option<i64>)
    requires
        min <= 0 <= max,
    ensures
        match r {
            Some(v) => signed_reading(opt_view(*content), min as int, max as int) == Some(v as int),
            None => signed_reading(opt_view(*content), min as int, max as int) is None,
        },
{
    match content {
        Some(c) => parse_signed_decimal(&trim_chars(&chars_of(c.as_str())), min, max),
        None => None,
    }
}

/// A temperature a hardware monitor reports.
#[derive(Clone, Copy, PartialEq, Eq, Structural, Debug)]
pub enum HwmonTemperature {
    /// From a `tempN_input` file, in thousandths of a degree Celsius.
    Millidegrees(i32),
    /// From the `temp1_edge` file, in degrees Celsius.
    Degrees(i32),
    /// No file gave a reading.
    Missing,
}

/// The first of the `tempN_input` contents from position `k` on that reads
/// as a 32-bit number.
pub open spec fn first_input_reading(inputs: Seq<Option<Seq<char>>>, k: int) -> Option<int>
    decreases inputs.len() - k,
{
    if k < 0 || k >= inputs.len() {
        None
    } else {
        match signed_reading(inputs[k], i32::MIN as int, i32::MAX as int) {
            Some(v) => Some(v),
            None => first_input_reading(inputs, k + 1),
        }
    }
}

/// The temperature of a hardware monitor: the first `tempN_input` file (in
/// order) that reads as a 32-bit number, else the `temp1_edge` file.
pub open spec fn hwmon_temperature_of(inputs: Seq<Option<Seq<char>>>, edge: Option<Seq<char>>) -> HwmonTemperature {
    match first_input_reading(inputs, 0) {
        Some(v) => HwmonTemperature::Millidegrees(v as i32),
        None => match signed_reading(edge, i32::MIN as int, i32::MAX as int) {
            Some(v) => HwmonTemperature::Degrees(v as i32),
            None => HwmonTemperature::Missing,
        },
    }
}

/// The views of a sequence of optional file contents.
pub open spec fn content_views(v: Seq<Option<String>>) -> Seq<Option<Seq<char>>> {
    v.map_values(|c: Option<String>| opt_view(c))
}

/// Picks a hardware monitor's temperature from the contents of its
/// `temp1_input`..`temp10_input` files, in order, and of its `temp1_edge`
/// file (`None` where a file is missing or unreadable).
pub fn hwmon_temperature(inputs: &Vec<Option<String>>, edge: &Option<String>) -> (t: HwmonTemperature)
    ensures
        t == hwmon_temperature_of(content_views(inputs@), opt_view(*edge)),
{
    let ghost cv = content_views(inputs@);
    let mut k: usize = 0;
    while k < inputs.len()
        invariant
            k <= inputs.len(),
            cv == content_views(inputs@),
            first_input_reading(cv, 0) == first_input_reading(cv, k as int),
        decreases inputs.len() - k,
    {
        proof {
            assert(cv[k as int] == opt_view(inputs@[k as int]));
        }
        match read_signed(&inputs[k], -2147483648, 2147483647) {
            Some(v) => {
                return HwmonTemperature::Millidegrees(v as i32);
            },
            None => {},
        }
        k = k + 1;
    }
    match read_signed(edge, -2147483648, 2147483647) {
        Some(v) => HwmonTemperature::Degrees(v as i32),
        None => HwmonTemperature::Missing,
    }
}

/// A 64-bit power reading of a sensor file, or 0.
pub open spec fn power_reading(content: Option<Seq<char>>) -> int {
    match signed_reading(content, i64::MIN as int, i64::MAX as int) {
        Some(v) => v,
        None => 0,
    }
}

/// The power draw of an AMD card in microwatts: `power1_average`, or
/// `power1_input` where the average reads as 0 or not at all.
pub open spec fn amdgpu_power_of(average: Option<Seq<char>>, input: Option<Seq<char>>) -> int {
    if power_reading(average) != 0 {
        power_reading(average)
    } else {
        power_reading(input)
    }
}

/// Picks an AMD card's power draw, in microwatts, from the contents of its
/// `power1_average` and `power1_input` files.
pub fn amdgpu_power_microwatts(average: &Option<String>, input: &Option<String>) -> (p: i64)
    ensures
        p as int == amdgpu_power_of(opt_view(*average), opt_view(*input)),
{
    let a: i64 = match read_signed(average, i64::MIN, i64::MAX) {
        Some(v) => v,
        None => 0,
    };
    if a != 0 {
        return a;
    }
    match read_signed(input, i64::MIN, i64::MAX) {
        Some(v) => v,
        None => 0,
    }
}

/// A hardware-monitor directory entry (`hwmon0`, ...).
pub fn is_hwmon_entry(name: &str) -> (b: bool)
    ensures
        b == has_prefix(name@, "hwmon"@),
{
    starts_with(&chars_of(name), &chars_of("hwmon"))
}

/// The first line at or after `k` that starts with `p`.
pub open spec fn first_with_prefix(ls: Seq<Seq<char>>, p: Seq<char>, k: int) -> Option<Seq<char>>
    decreases ls.len() - k,
{
    if k < 0 || k >= ls.len() {
        None
    } else if has_prefix(ls[k], p) {
        Some(ls[k])
    } else {
        first_with_prefix(ls, p, k + 1)
    }
}

/// `s` with every leading repetition of the non-empty `p` removed
/// (`trim_start_matches`).
pub open spec fn strip_repeated(s: Seq<char>, p: Seq<char>) -> Seq<char>
    decreases s.len(),
{
    if p.len() > 0 && has_prefix(s, p) {
        strip_repeated(s.subrange(p.len() as int, s.len() as int), p)
    } else {
        s
    }
}

/// The PCI id a device's `uevent` file gives: the first `PCI_ID=` line with
/// that prefix removed.
pub open spec fn uevent_pci_id(uevent: Seq<char>) -> Option<Seq<char>> {
    match first_with_prefix(lines_of(uevent), "PCI_ID="@, 0) {
        Some(l) => Some(strip_repeated(l, "PCI_ID="@)),
        None => None,
    }
}

/// Finds the PCI id in a `uevent` file's contents.
pub fn pci_id_from_uevent(uevent: &str) -> (r: Option<String>)
    ensures
        opt_view(r) == uevent_pci_id(uevent@),
{
    let lines = split_lines(&chars_of(uevent));
    let key = chars_of("PCI_ID=");
    let mut k: usize = 0;
    while k < lines.len()
        invariant
            k <= lines.len(),
            views(lines@) == lines_of(uevent@),
            key@ == "PCI_ID="@,
            first_with_prefix(views(lines@), key@, 0) == first_with_prefix(views(lines@), key@, k as int),
        decreases lines.len() - k,
    {
        if starts_with(&lines[k], &key) {
            let mut s = copy_range(&lines[k], 0, lines[k].len());
            proof {
                assert(s@ =~= lines@[k as int]@);
                reveal_strlit("PCI_ID=");
            }
            while s.len() >= key.len() && starts_with(&s, &key)
                invariant
                    key@ == "PCI_ID="@,
                    key.len() == 7,
                    k < lines.len(),
                    strip_repeated(s@, key@) == strip_repeated(lines@[k as int]@, key@),
                decreases s.len(),
            {
                s = copy_range(&s, key.len(), s.len());
            }
            return Some(string_of(&s));
        }
        k = k + 1;
    }
    None
}

/// What the caller read for one AMD card: its `uevent`, the four memory
/// files and the driver's version file.
pub struct AmdCard {
    pub uevent: Option<String>,
    pub vram_total: Option<String>,
    pub vram_used: Option<String>,
    pub gtt_total: Option<String>,
    pub gtt_used: Option<String>,
    pub driver_version: Option<String>,
}

/// The view of an [`AmdCard`].
pub struct AmdCardView {
    pub uevent: Option<Seq<char>>,
    pub vram_total: Option<Seq<char>>,
    pub vram_used: Option<Seq<char>>,
    pub gtt_total: Option<Seq<char>>,
    pub gtt_used: Option<Seq<char>>,
    pub driver_version: Option<Seq<char>>,
}

impl View for AmdCard {
    type V = AmdCardView;

    open spec fn view(&self) -> AmdCardView {
        AmdCardView {
            uevent: opt_view(self.uevent),
            vram_total: opt_view(self.vram_total),
            vram_used: opt_view(self.vram_used),
            gtt_total: opt_view(self.gtt_total),
            gtt_used: opt_view(self.gtt_used),
            driver_version: opt_view(self.driver_version),
        }
    }
}

/// The name of an AMD card from its `uevent` contents.
pub open spec fn amd_card_name(uevent: Option<Seq<char>>) -> Seq<char> {
    match uevent {
        Some(u) => match uevent_pci_id(u) {
            Some(id) => amd_gpu_name(id),
            None => "AMD GPU"@,
        },
        None => "AMD GPU"@,
    }
}

/// The adapter an AMD card is: VRAM figures where non-zero, else GTT
/// figures; free memory is total less used, at least 0.
pub open spec fn amd_gpu_of(index: u32, c: AmdCardView) -> GpuInfoView {
    let vt = sysfs_number(c.vram_total);
    let vu = sysfs_number(c.vram_used);
    let total = if vt > 0 {
        vt
    } else {
        sysfs_number(c.gtt_total)
    };
    let used = if vu > 0 {
        vu
    } else {
        sysfs_number(c.gtt_used)
    };
    GpuInfoView {
        index: index,
        name: amd_card_name(c.uevent),
        brand: "AMD"@,
        driver_version: match c.driver_version {
            Some(d) => trim(d),
            None => "Unknown"@,
        },
        memory_total_bytes: total,
        memory_used_bytes: used,
        memory_free_bytes: if total >= used {
            (total - used) as u64
        } else {
            0
        },
    }
}

/// The adapter one AMD card is, at position `index`.
pub fn amd_gpu_info(index: u32, c: &AmdCard) -> (g: GpuInfo)
    ensures
        g@ == amd_gpu_of(index, c@),
{
    let name = match &c.uevent {
        Some(u) => match pci_id_from_uevent(u.as_str()) {
            Some(id) => format_amd_gpu_name(id.as_str()),
            None => owned("AMD GPU"),
        },
        None => owned("AMD GPU"),
    };
    let vt = read_sysfs_u64(&c.vram_total);
    let vu = read_sysfs_u64(&c.vram_used);
    let total = if vt > 0 {
        vt
    } else {
        read_sysfs_u64(&c.gtt_total)
    };
    let used = if vu > 0 {
        vu
    } else {
        read_sysfs_u64(&c.gtt_used)
    };
    let driver_version = match &c.driver_version {
        Some(d) => string_of(&trim_chars(&chars_of(d.as_str()))),
        None => owned("Unknown"),
    };
    GpuInfo {
        index: index,
        name: name,
        brand: owned("AMD"),
        driver_version: driver_version,
        memory_total_bytes: total,
        memory_used_bytes: used,
        memory_free_bytes: total.saturating_sub(used),
    }
}

/// The AMD adapters, numbered from 0 in the order their cards are given.
pub fn get_amd_gpus(cards: &Vec<AmdCard>) -> (r: Vec<GpuInfo>)
    requires
        cards.len() <= u32::MAX,
    ensures
        r.len() == cards.len(),
        forall|i: int| 0 <= i < r.len() ==> #[trigger] r@[i]@ == amd_gpu_of(i as u32, cards@[i]@),
{
    let mut out: Vec<GpuInfo> = Vec::new();
    let mut index: u32 = 0;
    while (index as usize) < cards.len()
        invariant
            cards.len() <= u32::MAX,
            out.len() == index,
            index <= cards.len(),
            forall|i: int| 0 <= i < out.len() ==> #[trigger] out@[i]@ == amd_gpu_of(i as u32, cards@[i]@),
        decreases cards.len() - index,
    {
        out.push(amd_gpu_info(index, &cards[index as usize]));
        index = index + 1;
    }
    out
}

/// An AMD adapter never reports more free than total memory, and where its
/// used memory does not exceed the total, used and free memory add up to it.
pub proof fn lemma_amd_memory_adds_up(index: u32, c: AmdCardView)
    ensures
        amd_gpu_of(index, c).memory_free_bytes <= amd_gpu_of(index, c).memory_total_bytes,
        amd_gpu_of(index, c).memory_used_bytes <= amd_gpu_of(index, c).memory_total_bytes ==> amd_gpu_of(
            index,
            c,
        ).memory_used_bytes + amd_gpu_of(index, c).memory_free_bytes == amd_gpu_of(
            index,
            c,
        ).memory_total_bytes,
{
}

/// What the caller read for one PCI device: its class, vendor and device
/// files.
pub struct PciDevice {
    pub class: Option<String>,
    pub vendor: Option<String>,
    pub device: Option<String>,
}

/// The view of a [`PciDevice`].
pub struct PciDeviceView {
    pub class: Option<Seq<char>>,
    pub vendor: Option<Seq<char>>,
    pub device: Option<Seq<char>>,
}

impl View for PciDevice {
    type V = PciDeviceView;

    open spec fn view(&self) -> PciDeviceView {
        PciDeviceView {
            class: opt_view(self.class),
            vendor: opt_view(self.vendor),
            device: opt_view(self.device),
        }
    }
}

/// The brand a PCI vendor id stands for.
pub open spec fn vendor_brand(v: Seq<char>) -> Seq<char> {
    if v == "0x8086"@ {
        "Intel"@
    } else if v == "0x1002"@ {
        "AMD"@
    } else if v == "0x10de"@ {
        "NVIDIA"@
    } else {
        "Unknown"@
    }
}

/// The PCI vendor ids the library knows by name: 0x8086 Intel, 0x1002 AMD,
/// 0x10de NVIDIA; any other vendor is Unknown.
pub proof fn lemma_vendor_brands(v: Seq<char>)
    ensures
        vendor_brand("0x8086"@) == "Intel"@,
        vendor_brand("0x1002"@) == "AMD"@,
        vendor_brand("0x10de"@) == "NVIDIA"@,
        v != "0x8086"@ && v != "0x1002"@ && v != "0x10de"@ ==> vendor_brand(v) == "Unknown"@,
{
    reveal_strlit("0x8086");
    reveal_strlit("0x1002");
    reveal_strlit("0x10de");
    assert("0x8086"@[2] == '8');
    assert("0x1002"@[2] == '1');
    assert("0x10de"@[4] == 'd');
    assert("0x1002"@[4] == '0');
}

/// The (brand, device) of a PCI device the fallback scan reports: any VGA
/// controller (class `0x0300..`) whose vendor is neither NVIDIA nor AMD, which
/// other sources cover. Its brand is `"Unknown"` where the vendor is not
/// known by name.
pub open spec fn fallback_candidate(d: PciDeviceView) -> Option<(Seq<char>, Seq<char>)> {
    match d.class {
        None => None,
        Some(c) => if !has_prefix(trim(c), "0x0300"@) {
            None
        } else {
            let vendor = match d.vendor {
                Some(v) => trim(v),
                None => Seq::<char>::empty(),
            };
            if vendor == "0x10de"@ || vendor == "0x1002"@ {
                None
            } else {
                Some(
                    (
                        vendor_brand(vendor),
                        match d.device {
                            Some(x) => trim(x),
                            None => "Unknown"@,
                        },
                    ),
                )
            }
        },
    }
}

/// The adapters the fallback scan reports from the first `k` devices,
/// numbered from 0.
pub open spec fn fallback_gpus_upto(devs: Seq<PciDeviceView>, k: int) -> Seq<GpuInfoView>
    decreases k,
{
    if k <= 0 {
        seq![]
    } else {
        let prev = fallback_gpus_upto(devs, k - 1);
        match fallback_candidate(devs[k - 1]) {
            Some((brand, device)) => prev.push(
                GpuInfoView {
                    index: prev.len() as u32,
                    name: brand + " GPU "@ + device,
                    brand: brand,
                    driver_version: "Unknown"@,
                    memory_total_bytes: 0,
                    memory_used_bytes: 0,
                    memory_free_bytes: 0,
                },
            ),
            None => prev,
        }
    }
}

proof fn lemma_fallback_len(devs: Seq<PciDeviceView>, k: int)
    requires
        0 <= k,
    ensures
        fallback_gpus_upto(devs, k).len() <= k,
    decreases k,
{
    if k > 0 {
        lemma_fallback_len(devs, k - 1);
    }
}

/// The views of a sequence of PCI devices.
pub open spec fn device_views(v: Seq<PciDevice>) -> Seq<PciDeviceView> {
    v.map_values(|d: PciDevice| d@)
}

fn trimmed(s: &String) -> (r: Vec<char>)
    ensures
        r@ == trim(s@),
{
    trim_chars(&chars_of(s.as_str()))
}

fn brand_name(vendor: &Vec<char>) -> (r: Vec<char>)
    ensures
        r@ == vendor_brand(vendor@),
{
    if chars_eq(vendor, &chars_of("0x8086")) {
        chars_of("Intel")
    } else if chars_eq(vendor, &chars_of("0x1002")) {
        chars_of("AMD")
    } else if chars_eq(vendor, &chars_of("0x10de")) {
        chars_of("NVIDIA")
    } else {
        chars_of("Unknown")
    }
}

/// The adapters the PCI fallback scan reports, numbered from 0: one for each
/// display controller that neither NVIDIA's library nor the AMD scan covers.
pub fn get_gpus_from_sysfs(devices: &Vec<PciDevice>) -> (r: Vec<GpuInfo>)
    requires
        devices.len() <= u32::MAX,
    ensures
        gpu_views(r@) == fallback_gpus_upto(device_views(devices@), devices.len() as int),
{
    let ghost dv = device_views(devices@);
    let mut out: Vec<GpuInfo> = Vec::new();
    let mut index: u32 = 0;
    let mut k: usize = 0;
    while k < devices.len()
        invariant
            devices.len() <= u32::MAX,
            dv == device_views(devices@),
            k <= devices.len(),
            gpu_views(out@) == fallback_gpus_upto(dv, k as int),
            index == out.len(),
            index <= k,
        decreases devices.len() - k,
    {
        let d = &devices[k];
        proof {
            assert(dv[k as int] == d@);
            lemma_fallback_len(dv, k as int);
        }
        let ghost before = out@;
        let ghost prev = fallback_gpus_upto(dv, k as int);
        let candidate = match &d.class {
            None => false,
            Some(class) => starts_with(&trimmed(class), &chars_of("0x0300")),
        };
        if candidate {
            let vendor = match &d.vendor {
                Some(v) => trimmed(v),
                None => Vec::new(),
            };
            proof {
                assert(vendor@ == match d@.vendor {
                    Some(v) => trim(v),
                    None => Seq::<char>::empty(),
                });
            }
            if chars_eq(&vendor, &chars_of("0x10de")) || chars_eq(&vendor, &chars_of("0x1002")) {
                proof {
                    assert(fallback_candidate(d@) is None);
                }
            } else {
                let device = match &d.device {
                    Some(x) => trimmed(x),
                    None => chars_of("Unknown"),
                };
                let brand = brand_name(&vendor);
                proof {
                    assert(fallback_candidate(d@) == Some((brand@, device@)));
                }
                let mut name = copy_range(&brand, 0, brand.len());
                let mut mid = chars_of(" GPU ");
                let mut dev = copy_range(&device, 0, device.len());
                let ghost n0 = name@;
                let ghost m0 = mid@;
                let ghost d0 = dev@;
                name.append(&mut mid);
                name.append(&mut dev);
                proof {
                    assert(name@ =~= n0 + m0 + d0);
                    assert(n0 =~= brand@);
                    assert(gpu_views(before).len() == before.len());
                    assert(index as int == prev.len());
                }
                let g = GpuInfo {
                    index: index,
                    name: string_of(&name),
                    brand: string_of(&brand),
                    driver_version: owned("Unknown"),
                    memory_total_bytes: 0,
                    memory_used_bytes: 0,
                    memory_free_bytes: 0,
                };
                proof {
                    assert(g.index == prev.len() as u32);
                    assert(g.name@ == brand@ + " GPU "@ + device@);
                    assert(g.brand@ == brand@);
                    assert(g.driver_version@ == "Unknown"@);
                    assert(g@ == GpuInfoView {
                        index: prev.len() as u32,
                        name: brand@ + " GPU "@ + device@,
                        brand: brand@,
                        driver_version: "Unknown"@,
                        memory_total_bytes: 0,
                        memory_used_bytes: 0,
                        memory_free_bytes: 0,
                    });
                }
                out.push(g);
                proof {
                    assert(gpu_views(out@) =~= gpu_views(before).push(g@));
                }
                index = index + 1;
            }
        } else {
            proof {
                assert(fallback_candidate(d@) is None);
            }
        }
        proof {
            assert(gpu_views(out@) =~= fallback_gpus_upto(dv, k + 1));
        }
        k = k + 1;
    }
    out
}

/// What NVIDIA's management library told of one device: its position among
/// the devices, and each answer, `None` where that query failed. The memory
/// answer is (total, used, free) bytes.
pub struct NvidiaDevice {
    pub index: u32,
    pub name: Option<String>,
    pub driver_version: Option<String>,
    pub memory: Option<(u64, u64, u64)>,
}

/// The view of an [`NvidiaDevice`].
pub struct NvidiaDeviceView {
    pub index: u32,
    pub name: Option<Seq<char>>,
    pub driver_version: Option<Seq<char>>,
    pub memory: Option<(u64, u64, u64)>,
}

impl View for NvidiaDevice {
    type V = NvidiaDeviceView;

    open spec fn view(&self) -> NvidiaDeviceView {
        NvidiaDeviceView {
            index: self.index,
            name: opt_view(self.name),
            driver_version: opt_view(self.driver_version),
            memory: self.memory,
        }
    }
}

/// The adapter an NVIDIA device is: a failed name or driver query reads
/// `"Unknown"`, a failed memory query 0 for each figure.
pub open spec fn nvidia_gpu_of(d: NvidiaDeviceView) -> GpuInfoView {
    GpuInfoView {
        index: d.index,
        name: match d.name {
            Some(n) => n,
            None => "Unknown"@,
        },
        brand: "NVIDIA"@,
        driver_version: match d.driver_version {
            Some(v) => v,
            None => "Unknown"@,
        },
        memory_total_bytes: match d.memory {
            Some(m) => m.0,
            None => 0,
        },
        memory_used_bytes: match d.memory {
            Some(m) => m.1,
            None => 0,
        },
        memory_free_bytes: match d.memory {
            Some(m) => m.2,
            None => 0,
        },
    }
}

fn answer_or_unknown(a: &Option<String>) -> (r: String)
    ensures
        r@ == match opt_view(*a) {
            Some(x) => x,
            None => "Unknown"@,
        },
{
    match a {
        Some(x) => x.clone(),
        None => owned("Unknown"),
    }
}

/// The adapter one NVIDIA device is.
pub fn nvidia_gpu_info(d: &NvidiaDevice) -> (g: GpuInfo)
    ensures
        g@ == nvidia_gpu_of(d@),
{
    let (total, used, free) = match d.memory {
        Some(m) => m,
        None => (0, 0, 0),
    };
    GpuInfo {
        index: d.index,
        name: answer_or_unknown(&d.name),
        brand: owned("NVIDIA"),
        driver_version: answer_or_unknown(&d.driver_version),
        memory_total_bytes: total,
        memory_used_bytes: used,
        memory_free_bytes: free,
    }
}

/// The NVIDIA adapters, one for each device the library answered for, in
/// the order given.
pub fn get_nvidia_gpus(devices: &Vec<NvidiaDevice>) -> (r: Vec<GpuInfo>)
    ensures
        gpu_views(r@) == devices@.map_values(|d: NvidiaDevice| nvidia_gpu_of(d@)),
{
    let mut out: Vec<GpuInfo> = Vec::new();
    let mut k: usize = 0;
    while k < devices.len()
        invariant
            k <= devices.len(),
            gpu_views(out@) == devices@.take(k as int).map_values(|d: NvidiaDevice| nvidia_gpu_of(d@)),
        decreases devices.len() - k,
    {
        let g = nvidia_gpu_info(&devices[k]);
        let ghost before = out@;
        out.push(g);
        proof {
            assert(gpu_views(out@) =~= gpu_views(before).push(g@));
            assert(devices@.take(k + 1).map_values(|d: NvidiaDevice| nvidia_gpu_of(d@))
                =~= devices@.take(k as int).map_values(|d: NvidiaDevice| nvidia_gpu_of(d@)).push(
                nvidia_gpu_of(devices@[k as int]@),
            ));
        }
        k = k + 1;
    }
    proof {
        assert(devices@.take(devices.len() as int) =~= devices@);
    }
    out
}

/// The adapters found: those NVIDIA's library and the AMD scan report, in
/// that order; where both report none, those of the PCI fallback scan.
pub fn get_gpus<T>(nvidia: Vec<T>, amd: Vec<T>, fallback: Vec<T>) -> (r: Vec<T>)
    ensures
        r@ == if nvidia@.len() + amd@.len() > 0 {
            nvidia@ + amd@
        } else {
            fallback@
        },
{
    let mut results = nvidia;
    let mut amd = amd;
    results.append(&mut amd);
    if results.len() == 0 {
        return fallback;
    }
    results
}

/// An AMD adapter reports VRAM figures where the card reports non-zero VRAM
/// (total and used each on its own), falling back to GTT figures; its
/// driver version is the trimmed version file, or `"Unknown"`.
pub proof fn lemma_amd_memory_sources(index: u32, c: AmdCardView)
    ensures
        amd_gpu_of(index, c).index == index,
        amd_gpu_of(index, c).brand == "AMD"@,
        sysfs_number(c.vram_total) > 0 ==> amd_gpu_of(index, c).memory_total_bytes == sysfs_number(c.vram_total),
        sysfs_number(c.vram_total) == 0 ==> amd_gpu_of(index, c).memory_total_bytes == sysfs_number(c.gtt_total),
        sysfs_number(c.vram_used) > 0 ==> amd_gpu_of(index, c).memory_used_bytes == sysfs_number(c.vram_used),
        sysfs_number(c.vram_used) == 0 ==> amd_gpu_of(index, c).memory_used_bytes == sysfs_number(c.gtt_used),
        c.driver_version matches Some(d) ==> amd_gpu_of(index, c).driver_version == trim(d),
        c.driver_version is None ==> amd_gpu_of(index, c).driver_version == "Unknown"@,
{
}

/// An NVIDIA adapter carries the library's answers: its position, name,
/// driver version and (total, used, free) memory, with `"Unknown"` and 0
/// where a query failed.
pub proof fn lemma_nvidia_answers(d: NvidiaDeviceView)
    ensures
        nvidia_gpu_of(d).index == d.index,
        nvidia_gpu_of(d).brand == "NVIDIA"@,
        d.name matches Some(n) ==> nvidia_gpu_of(d).name == n,
        d.name is None ==> nvidia_gpu_of(d).name == "Unknown"@,
        d.driver_version matches Some(v) ==> nvidia_gpu_of(d).driver_version == v,
        d.driver_version is None ==> nvidia_gpu_of(d).driver_version == "Unknown"@,
        d.memory matches Some(m) ==> nvidia_gpu_of(d).memory_total_bytes == m.0
            && nvidia_gpu_of(d).memory_used_bytes == m.1 && nvidia_gpu_of(d).memory_free_bytes == m.2,
        d.memory is None ==> nvidia_gpu_of(d).memory_total_bytes == 0 && nvidia_gpu_of(d).memory_used_bytes
            == 0 && nvidia_gpu_of(d).memory_free_bytes == 0,
{
}

/// The fallback scan reports a device exactly when it is a VGA controller
/// (trimmed class beginning `0x0300`) whose trimmed vendor is neither NVIDIA
/// (`0x10de`) nor AMD (`0x1002`); it is then named by the vendor's brand and
/// its trimmed device id (`"Unknown"` where that file is missing).
pub proof fn lemma_fallback_devices(d: PciDeviceView)
    ensures
        d.class is None ==> fallback_candidate(d) is None,
        d.class is Some && !has_prefix(trim(d.class->0), "0x0300"@) ==> fallback_candidate(d) is None,
        d.vendor is Some && (trim(d.vendor->0) == "0x10de"@ || trim(d.vendor->0) == "0x1002"@)
            ==> fallback_candidate(d) is None,
        d.class is Some && has_prefix(trim(d.class->0), "0x0300"@) && d.vendor is Some && trim(
            d.vendor->0,
        ) != "0x10de"@ && trim(d.vendor->0) != "0x1002"@ ==> fallback_candidate(d) == Some(
            (
                vendor_brand(trim(d.vendor->0)),
                match d.device {
                    Some(x) => trim(x),
                    None => "Unknown"@,
                },
            ),
        ),
{
}

} // verus!
