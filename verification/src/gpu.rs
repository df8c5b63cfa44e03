//! The GPU memory the daemon may suggest for the work, and what
//! `nvidia-smi` reports of each GPU. Running the tool, the power draw (a
//! fractional number of watts) and the fractional share belong to the
//! program around the library.

use vstd::prelude::*;
use crate::numfmt::{parse_unsigned, parse_unsigned_u64};
use crate::text::{
    chars_of, find_char, first_index_of, lemma_first_index_at, lemma_first_index_of, lines,
    split_any, split_any_spec, split_lines, string_from_chars, strings_view, trim, trimmed,
};

verus! {

/// What the daemon suggests of the GPU, in MiB.
#[derive(Debug, Clone, Copy, PartialEq, Eq, Structural)]
pub struct GpuAllocation {
    /// Total memory.
    pub total_mb: u32,
    /// Memory in use.
    pub used_mb: u32,
    /// Memory free.
    pub free_mb: u32,
    /// The share suggested for the work.
    pub allocated_mb: u32,
}

impl GpuAllocation {
    /// No GPU: everything zero.
    pub fn none() -> (res: GpuAllocation)
        ensures
            res == (GpuAllocation { total_mb: 0, used_mb: 0, free_mb: 0, allocated_mb: 0 }),
    {
        GpuAllocation { total_mb: 0, used_mb: 0, free_mb: 0, allocated_mb: 0 }
    }

    /// True when a GPU with memory was found.
    pub fn is_available(&self) -> (res: bool)
        ensures
            res == (self.total_mb > 0),
    {
        self.total_mb > 0
    }

    /// The allocation for a GPU with `total_mb` of which `used_mb` are in
    /// use, suggesting `allocated_mb` of what is free (the free memory
    /// does not go below 0).
    pub fn with_share(total_mb: u32, used_mb: u32, allocated_mb: u32) -> (res: GpuAllocation)
        ensures
            res == (GpuAllocation {
                total_mb,
                used_mb,
                free_mb: if total_mb >= used_mb { (total_mb - used_mb) as u32 } else { 0 },
                allocated_mb,
            }),
    {
        GpuAllocation { total_mb, used_mb, free_mb: total_mb.saturating_sub(used_mb), allocated_mb }
    }
}

/// The first line of a text (empty when there is none).
pub open spec fn first_line(out: Seq<char>) -> Seq<char> {
    let ls = split_lines(out);
    if ls.len() > 0 { ls[0] } else { Seq::empty() }
}

/// The two numbers of a `total, used` line: exactly one comma, each side a
/// decimal `u32` once trimmed.
pub open spec fn memory_pair(line: Seq<char>) -> Option<(nat, nat)> {
    let k = first_index_of(line, ',');
    if k < 0 {
        None
    } else {
        let rest = line.skip(k + 1);
        if first_index_of(rest, ',') >= 0 {
            None
        } else {
            match (parse_unsigned(trimmed(line.take(k)), 0xffff_ffff), parse_unsigned(trimmed(rest), 0xffff_ffff)) {
                (Some(t), Some(u)) => Some((t, u)),
                _ => None,
            }
        }
    }
}

/// The total and used memory of the first GPU in the output of
/// `nvidia-smi --query-gpu=memory.total,memory.used --format=csv,noheader,nounits`,
/// or nothing when the first line is malformed or the total is zero.
pub open spec fn gpu_memory(out: Seq<char>) -> Option<(nat, nat)> {
    match memory_pair(first_line(out)) {
        Some((t, u)) => if t == 0 { None } else { Some((t, u)) },
        None => None,
    }
}

/// Reads a decimal `u32` from the trimmed characters `cs[from..to]`.
fn read_u32(cs: &[char], from: usize, to: usize) -> (res: Option<u32>)
    requires
        from <= to <= cs@.len(),
    ensures
        match parse_unsigned(trimmed(cs@.subrange(from as int, to as int)), 0xffff_ffff) {
            Some(v) => res == Some(v as u32),
            None => res is None,
        },
{
    let part = string_from_chars(cs, from, to);
    let t = trim(part.as_str());
    let tc = chars_of(t.as_str());
    match parse_unsigned_u64(tc.as_slice(), 0xffff_ffff) {
        Some(v) => Some(v as u32),
        None => None,
    }
}

/// The first GPU's total and used memory (MiB) in the tool's output.
pub fn read_gpu_memory(stdout: &str) -> (res: Option<(u32, u32)>)
    ensures
        match gpu_memory(stdout@) {
            Some((t, u)) => res == Some((t as u32, u as u32)),
            None => res is None,
        },
{
    let ls = lines(stdout);
    proof {
        assert(strings_view(ls@) == split_lines(stdout@));
    }
    let line: Vec<char> = if ls.len() > 0 {
        proof {
            assert(strings_view(ls@)[0] == ls@[0]@);
        }
        chars_of(ls[0].as_str())
    } else {
        Vec::new()
    };
    let ghost l = first_line(stdout@);
    assert(line@ =~= l);
    let n = line.len();
    let k = match find_char(line.as_slice(), 0, ',') {
        Some(k) => k,
        None => {
            proof {
                lemma_first_index_of(l, ',');
            }
            return None;
        },
    };
    proof {
        lemma_first_index_at(l, ',', k as int);
    }
    let ghost rest = l.skip(k + 1);
    match find_char(line.as_slice(), k + 1, ',') {
        Some(j) => {
            proof {
                assert(rest[j - k - 1] == ',');
                lemma_first_index_of(rest, ',');
                if first_index_of(rest, ',') < 0 {
                    assert(rest[j - k - 1] != ',');
                }
            }
            return None;
        },
        None => {
            proof {
                lemma_first_index_of(rest, ',');
                if first_index_of(rest, ',') >= 0 {
                    let q = first_index_of(rest, ',');
                    assert(rest[q] == line@[k + 1 + q]);
                }
            }
        },
    }
    proof {
        assert(l.take(k as int) =~= line@.subrange(0, k as int));
        assert(rest =~= line@.subrange(k + 1, n as int));
    }
    let total = match read_u32(line.as_slice(), 0, k) {
        Some(v) => v,
        None => return None,
    };
    let used = match read_u32(line.as_slice(), k + 1, n) {
        Some(v) => v,
        None => return None,
    };
    if total == 0 {
        return None;
    }
    Some((total, used))
}


/// One GPU line of `nvidia-smi --query-gpu=index,memory.total,memory.used,
/// name,driver_version,temperature.gpu,power.draw --format=csv,noheader,nounits`.
/// The power draw is fractional; its text is kept for the caller to read.
#[derive(Debug, Clone)]
pub struct GpuRow {
    pub device_id: u32,
    pub total_vram_mb: u32,
    pub used_vram_mb: u32,
    pub name: String,
    pub driver_version: String,
    pub temperature_c: u32,
    /// The power draw, as written (trimmed).
    pub power_text: String,
}

/// A row as plain values.
pub type GpuRowView = (nat, nat, nat, Seq<char>, Seq<char>, nat, Seq<char>);

/// The plain values of a row.
pub open spec fn gpu_row_view(r: GpuRow) -> GpuRowView {
    (r.device_id as nat, r.total_vram_mb as nat, r.used_vram_mb as nat, r.name@, r.driver_version@, r.temperature_c as nat, r.power_text@)
}

/// A field read as a `u32`, or 0 when it is not one.
pub open spec fn u32_or_zero(t: Seq<char>) -> nat {
    match parse_unsigned(t, 0xffff_ffff) {
        Some(v) => v,
        None => 0,
    }
}

/// The trimmed comma-separated fields of a line.
pub open spec fn csv_fields(line: Seq<char>) -> Seq<Seq<char>> {
    split_any_spec(line, seq![',']).map_values(|p: Seq<char>| trimmed(p))
}

/// The row of a line with at least seven fields.
pub open spec fn row_of(line: Seq<char>) -> Option<GpuRowView> {
    let f = csv_fields(line);
    if f.len() >= 7 {
        Some((u32_or_zero(f[0]), u32_or_zero(f[1]), u32_or_zero(f[2]), f[3], f[4], u32_or_zero(f[5]), f[6]))
    } else {
        None
    }
}

/// The rows of the lines that have at least seven fields, in order.
pub open spec fn rows_of(ls: Seq<Seq<char>>) -> Seq<GpuRowView>
    decreases ls.len(),
{
    if ls.len() == 0 {
        Seq::empty()
    } else {
        match row_of(ls.last()) {
            Some(r) => rows_of(ls.drop_last()).push(r),
            None => rows_of(ls.drop_last()),
        }
    }
}

fn u32_field(t: &String) -> (res: u32)
    ensures
        res as nat == u32_or_zero(t@),
{
    let cs = chars_of(t.as_str());
    match parse_unsigned_u64(cs.as_slice(), 0xffff_ffff) {
        Some(v) => v as u32,
        None => 0,
    }
}

/// The GPUs in the tool's output, one per line of at least seven fields.
pub fn gpu_rows(stdout: &str) -> (res: Vec<GpuRow>)
    ensures
        res@.map_values(|r: GpuRow| gpu_row_view(r)) == rows_of(split_lines(stdout@)),
{
    let ls = lines(stdout);
    let ghost lv = strings_view(ls@);
    assert(lv == split_lines(stdout@));
    let commas: [char; 1] = [','];
    assert(commas@ =~= seq![',']);
    let mut out: Vec<GpuRow> = Vec::new();
    let mut i: usize = 0;
    while i < ls.len()
        invariant
            0 <= i <= ls@.len(),
            lv == strings_view(ls@),
            lv == split_lines(stdout@),
            commas@ == seq![','],
            out@.map_values(|r: GpuRow| gpu_row_view(r)) == rows_of(lv.take(i as int)),
        decreases ls@.len() - i,
    {
        let raw = split_any(ls[i].as_str(), &commas);
        let ghost before = out@;
        proof {
            assert(lv.take(i as int + 1).drop_last() =~= lv.take(i as int));
            assert(lv.take(i as int + 1).last() == ls@[i as int]@);
        }
        if raw.len() >= 7 {
            let f0 = trim(raw[0].as_str());
            let f1 = trim(raw[1].as_str());
            let f2 = trim(raw[2].as_str());
            let f3 = trim(raw[3].as_str());
            let f4 = trim(raw[4].as_str());
            let f5 = trim(raw[5].as_str());
            let f6 = trim(raw[6].as_str());
            let row = GpuRow {
                device_id: u32_field(&f0),
                total_vram_mb: u32_field(&f1),
                used_vram_mb: u32_field(&f2),
                name: f3,
                driver_version: f4,
                temperature_c: u32_field(&f5),
                power_text: f6,
            };
            out.push(row);
            proof {
                let f = csv_fields(ls@[i as int]@);
                assert(f.len() == raw@.len());
                assert(f[0] == trimmed(raw@[0]@) && f[1] == trimmed(raw@[1]@) && f[2] == trimmed(raw@[2]@));
                assert(f[3] == trimmed(raw@[3]@) && f[4] == trimmed(raw@[4]@) && f[5] == trimmed(raw@[5]@));
                assert(f[6] == trimmed(raw@[6]@));
                assert(out@.map_values(|r: GpuRow| gpu_row_view(r)) =~= before.map_values(|r: GpuRow| gpu_row_view(r)).push(
                    gpu_row_view(row),
                ));
            }
        } else {
            proof {
                assert(csv_fields(ls@[i as int]@).len() == raw@.len());
            }
        }
        i = i + 1;
    }
    proof {
        assert(lv.take(i as int) =~= lv);
    }
    out
}

} // verus!
