//! What the hardware probes are taken to mean: GPU rows from `nvidia-smi`, an NPU in the
//! compute-accelerator listing, and the capabilities and warnings shown to the user.
use vstd::prelude::*;
use crate::text::{
    ascii_lower_chars, ascii_lower_spec, cat, chars_of, contains_chars, contains_seq,
    decimal_chars, decimal_string, parse_u64, parse_u64_spec, string_of, trim, trim_spec,
};

verus! {

pub const MIB: u64 = 1048576;

/// System memory in bytes.
#[derive(Debug, Clone, Copy, PartialEq, Eq, Structural)]
pub struct MemoryInfo {
    pub total_bytes: u64,
    pub available_bytes: u64,
}

/// How far a capability is confirmed.
#[derive(Debug, Clone, Copy, PartialEq, Eq, Structural)]
pub enum CapabilityStatus {
    Available,
    Unavailable,
    Unknown,
    Experimental,
}

/// One capability with the evidence for its status.
#[derive(Debug, Clone)]
pub struct Capability {
    pub id: &'static str,
    pub label: &'static str,
    pub status: CapabilityStatus,
    pub evidence: String,
}

/// One accelerator: a GPU that `nvidia-smi` reported or an NPU from the compute-accelerator
/// listing. Utilization and temperature are kept as the reported text, trimmed, to be read as
/// numbers where floating point is available.
#[derive(Debug, Clone)]
pub struct DeviceInfo {
    pub id: String,
    pub kind: &'static str,
    pub name: String,
    pub vendor: String,
    pub memory_total_bytes: Option<u64>,
    pub memory_available_bytes: Option<u64>,
    pub utilization_text: Option<String>,
    pub temperature_text: Option<String>,
}

/// The processor: its name, core counts and utilization (the bits of an `f32` that the
/// operating system reported).
#[derive(Debug, Clone)]
pub struct CpuInfo {
    pub name: String,
    pub physical_cores: Option<usize>,
    pub logical_cores: usize,
    pub utilization_percent_bits: Option<u32>,
}

/// What one probe of the machine found, and when.
#[derive(Debug, Clone)]
pub struct HardwareSnapshot {
    pub captured_at: String,
    pub source: &'static str,
    pub cpu: CpuInfo,
    pub memory: MemoryInfo,
    pub devices: Vec<DeviceInfo>,
    pub capabilities: Vec<Capability>,
    pub warnings: Vec<String>,
}


/// The pieces of a text between commas, empty ones included, as `split(',')` gives them.
pub open spec fn comma_fields(row: Seq<char>) -> Seq<Seq<char>>
    decreases row.len(),
{
    if row.len() == 0 {
        seq![Seq::empty()]
    } else {
        let r = comma_fields(row.drop_last());
        if row.last() == ',' {
            r.push(Seq::empty())
        } else {
            r.update(r.len() - 1, r.last().push(row.last()))
        }
    }
}

proof fn lemma_comma_fields_nonempty(row: Seq<char>)
    ensures
        comma_fields(row).len() >= 1,
    decreases row.len(),
{
    if row.len() > 0 {
        lemma_comma_fields_nonempty(row.drop_last());
    }
}

/// A reported MiB count in bytes; a count whose byte size does not fit 64 bits is no size.
pub open spec fn mib_bytes(field: Seq<char>) -> Option<u64> {
    match parse_u64_spec(trim_spec(field)) {
        Some(v) => if v * MIB <= u64::MAX { Some((v * MIB) as u64) } else { None },
        None => None,
    }
}

/// A CSV row of name, total MiB, free MiB, utilization and temperature; any other number
/// of fields is no device.
pub open spec fn nvidia_row_spec(index: usize, row: Seq<char>) -> Option<(Seq<char>, Seq<char>, Option<u64>, Option<u64>, Option<Seq<char>>, Option<Seq<char>>)> {
    let f = comma_fields(row);
    if f.len() != 5 {
        None
    } else {
        Some((
            "nvidia-"@ + decimal_chars(index as nat),
            trim_spec(f[0]),
            mib_bytes(f[1]),
            mib_bytes(f[2]),
            Some(trim_spec(f[3])),
            Some(trim_spec(f[4])),
        ))
    }
}

fn field_mib(field: &str) -> (bytes: Option<u64>)
    ensures
        bytes == mib_bytes(field@),
{
    match parse_u64(trim(field)) {
        Some(v) => v.checked_mul(MIB),
        None => None,
    }
}

/// Reads one row of `nvidia-smi --format=csv,noheader,nounits` output.
pub fn parse_nvidia_row(index: usize, row: &str) -> (device: Option<DeviceInfo>)
    ensures
        match (device, nvidia_row_spec(index, row@)) {
            (Some(d), Some(v)) => device_view(d) == v && is_nvidia_gpu(d),
            (None, None) => true,
            _ => false,
        },
{
    let chars = chars_of(row);
    let mut fields: Vec<String> = Vec::new();
    let mut start: usize = 0;
    let mut i: usize = 0;
    let ghost mut done: Seq<Seq<char>> = Seq::empty();
    assert(row@.subrange(0, 0) =~= Seq::<char>::empty());
    while i < chars.len()
        invariant
            chars@ == row@,
            start <= i <= chars@.len(),
            comma_fields(row@.subrange(0, i as int)) == done.push(row@.subrange(start as int, i as int)),
            crate::text::texts(fields@) == done,
        decreases chars@.len() - i,
    {
        proof {
            assert(row@.subrange(0, i + 1).drop_last() =~= row@.subrange(0, i as int));
        }
        if chars[i] == ',' {
            let f = string_of(&chars, start, i);
            proof {
                done = done.push(row@.subrange(start as int, i as int));
            }
            fields.push(f);
            assert(crate::text::texts(fields@) =~= done);
            start = i + 1;
            assert(row@.subrange(start as int, i + 1) =~= Seq::<char>::empty());
        } else {
            assert(row@.subrange(start as int, i + 1) =~= row@.subrange(start as int, i as int).push(chars@[i as int]));
        }
        i += 1;
    }
    let last = string_of(&chars, start, chars.len());
    assert(row@.subrange(0, chars@.len() as int) =~= row@);
    proof {
        done = done.push(row@.subrange(start as int, chars@.len() as int));
    }
    fields.push(last);
    assert(crate::text::texts(fields@) =~= done);
    if fields.len() != 5 {
        return None;
    }
    let mut id = "nvidia-".to_owned();
    id.append(decimal_string(index as u64).as_str());
    Some(DeviceInfo {
        id,
        kind: "gpu",
        name: trim(fields[0].as_str()).to_owned(),
        vendor: "NVIDIA".to_owned(),
        memory_total_bytes: field_mib(fields[1].as_str()),
        memory_available_bytes: field_mib(fields[2].as_str()),
        utilization_text: Some(trim(fields[3].as_str()).to_owned()),
        temperature_text: Some(trim(fields[4].as_str()).to_owned()),
    })
}

/// The lines of a text between line feeds, empty ones included.
pub open spec fn newline_fields(text: Seq<char>) -> Seq<Seq<char>>
    decreases text.len(),
{
    if text.len() == 0 {
        seq![Seq::empty()]
    } else {
        let r = newline_fields(text.drop_last());
        if text.last() == '\n' {
            r.push(Seq::empty())
        } else {
            r.update(r.len() - 1, r.last().push(text.last()))
        }
    }
}

/// The lines of a text between line feeds, as character lists.
fn split_lines(text: &str) -> (lines: Vec<Vec<char>>)
    ensures
        lines@.map_values(|l: Vec<char>| l@) == newline_fields(text@),
{
    let chars = chars_of(text);
    let mut lines: Vec<Vec<char>> = Vec::new();
    let mut current: Vec<char> = Vec::new();
    let mut i: usize = 0;
    assert(text@.subrange(0, 0) =~= Seq::<char>::empty());
    while i < chars.len()
        invariant
            chars@ == text@,
            i <= chars@.len(),
            newline_fields(text@.subrange(0, i as int)) == lines@.map_values(|l: Vec<char>| l@).push(current@),
        decreases chars@.len() - i,
    {
        proof {
            assert(text@.subrange(0, i + 1).drop_last() =~= text@.subrange(0, i as int));
        }
        let ghost before = lines@;
        if chars[i] == '\n' {
            let finished = current;
            current = Vec::new();
            lines.push(finished);
            assert(lines@.map_values(|l: Vec<char>| l@) =~= before.map_values(|l: Vec<char>| l@).push(finished@));
        } else {
            current.push(chars[i]);
        }
        i += 1;
    }
    assert(text@.subrange(0, chars@.len() as int) =~= text@);
    let ghost before = lines@;
    lines.push(current);
    assert(lines@.map_values(|l: Vec<char>| l@) =~= newline_fields(text@));
    lines
}

/// What a device reads as: ID, name, memory total and free, utilization and temperature.
pub open spec fn device_view(d: DeviceInfo) -> (Seq<char>, Seq<char>, Option<u64>, Option<u64>, Option<Seq<char>>, Option<Seq<char>>) {
    (d.id@, d.name@, d.memory_total_bytes, d.memory_available_bytes, opt_text(d.utilization_text), opt_text(d.temperature_text))
}

/// The text of an optional string.
pub open spec fn opt_text(s: Option<String>) -> Option<Seq<char>> {
    match s {
        Some(t) => Some(t@),
        None => None,
    }
}

/// A device of kind `gpu` from the vendor NVIDIA.
pub open spec fn is_nvidia_gpu(d: DeviceInfo) -> bool {
    d.kind@ == "gpu"@ && d.vendor@ == "NVIDIA"@
}

/// The devices of the rows of `nvidia-smi` output: each line that is a device row, numbered
/// by its line.
pub open spec fn nvidia_devices_spec(lines: Seq<Seq<char>>) -> Seq<(Seq<char>, Seq<char>, Option<u64>, Option<u64>, Option<Seq<char>>, Option<Seq<char>>)>
    decreases lines.len(),
{
    if lines.len() == 0 {
        Seq::empty()
    } else {
        let rest = nvidia_devices_spec(lines.drop_last());
        match nvidia_row_spec((lines.len() - 1) as usize, lines.last()) {
            Some(d) => rest.push(d),
            None => rest,
        }
    }
}

/// Reads all rows of `nvidia-smi --format=csv,noheader,nounits` output; lines that are not
/// device rows are skipped, and each device is numbered by its line.
pub fn parse_nvidia_rows(output: &str) -> (devices: Vec<DeviceInfo>)
    ensures
        devices@.map_values(|d: DeviceInfo| device_view(d)) == nvidia_devices_spec(newline_fields(output@)),
        forall|i: int| 0 <= i < devices@.len() ==> is_nvidia_gpu(#[trigger] devices@[i]),
{
    let lines = split_lines(output);
    let ghost all = lines@.map_values(|l: Vec<char>| l@);
    let mut devices: Vec<DeviceInfo> = Vec::new();
    let mut i: usize = 0;
    assert(all.subrange(0, 0) =~= Seq::<Seq<char>>::empty());
    while i < lines.len()
        invariant
            i <= lines@.len(),
            all == lines@.map_values(|l: Vec<char>| l@),
            devices@.map_values(|d: DeviceInfo| device_view(d)) == nvidia_devices_spec(all.subrange(0, i as int)),
            forall|j: int| 0 <= j < devices@.len() ==> is_nvidia_gpu(#[trigger] devices@[j]),
        decreases lines@.len() - i,
    {
        let row = string_of(&lines[i], 0, lines[i].len());
        assert(lines@[i as int]@.subrange(0, lines@[i as int]@.len() as int) =~= lines@[i as int]@);
        proof {
            assert(all.subrange(0, i + 1).drop_last() =~= all.subrange(0, i as int));
            assert(all.subrange(0, i + 1).last() == all[i as int]);
        }
        let ghost before = devices@;
        match parse_nvidia_row(i, row.as_str()) {
            Some(d) => {
                devices.push(d);
                assert(devices@.map_values(|d: DeviceInfo| device_view(d)) =~= before.map_values(|d: DeviceInfo| device_view(d)).push(device_view(d)));
            },
            None => {},
        }
        i += 1;
    }
    assert(all.subrange(0, lines@.len() as int) =~= all);
    devices
}

/// A line that names an NPU or Intel AI Boost, ignoring ASCII case.
pub open spec fn names_npu(line: Seq<char>) -> bool {
    contains_seq(ascii_lower_spec(line), "npu"@) || contains_seq(ascii_lower_spec(line), "ai boost"@)
}

/// The text after the first `:` of a line, trimmed; `None` without a `:`.
pub open spec fn after_colon(line: Seq<char>) -> Option<Seq<char>> {
    if line.contains(':') {
        let k = choose|k: int| 0 <= k < line.len() && line[k] == ':' && forall|j: int| 0 <= j < k ==> line[j] != ':';
        Some(trim_spec(line.skip(k + 1)))
    } else {
        None
    }
}

/// The first line of the listing that names an NPU, if any.
pub open spec fn first_npu_line(lines: Seq<Seq<char>>) -> Option<Seq<char>>
    decreases lines.len(),
{
    if lines.len() == 0 {
        None
    } else if names_npu(lines[0]) {
        Some(lines[0])
    } else {
        first_npu_line(lines.drop_first())
    }
}

/// The NPU that the Windows compute-accelerator listing shows: when the listing names an NPU
/// or AI Boost anywhere, the device is named by the text after the `:` of the first line
/// that does, or `Intel AI accelerator`.
pub open spec fn detect_npu_spec(listing: Seq<char>) -> Option<Seq<char>> {
    if names_npu(listing) {
        match first_npu_line(newline_fields(listing)) {
            Some(line) => match after_colon(line) {
                Some(name) => Some(name),
                None => Some("Intel AI accelerator"@),
            },
            None => Some("Intel AI accelerator"@),
        }
    } else {
        None
    }
}

fn line_names_npu(line: &Vec<char>) -> (result: bool)
    ensures
        result == names_npu(line@),
{
    let text = string_of(line, 0, line.len());
    assert(line@.subrange(0, line@.len() as int) =~= line@);
    let lowered = ascii_lower_chars(text.as_str());
    let npu = chars_of("npu");
    let boost = chars_of("ai boost");
    contains_chars(&lowered, &npu) || contains_chars(&lowered, &boost)
}

fn name_after_colon(line: &Vec<char>) -> (name: Option<String>)
    ensures
        match (name, after_colon(line@)) {
            (Some(n), Some(m)) => n@ == m,
            (None, None) => true,
            _ => false,
        },
{
    let mut k: usize = 0;
    while k < line.len() && line[k] != ':'
        invariant
            k <= line@.len(),
            forall|j: int| 0 <= j < k ==> line@[j] != ':',
        decreases line@.len() - k,
    {
        k += 1;
    }
    if k == line.len() {
        return None;
    }
    proof {
        let c = choose|c: int| 0 <= c < line@.len() && line@[c] == ':' && forall|j: int| 0 <= j < c ==> line@[j] != ':';
        assert(line@[k as int] == ':');
        if c < k {
            assert(line@[c] != ':');
        }
        if c > k {
            assert(line@[k as int] != ':');
        }
        assert(c == k);
    }
    let rest = string_of(line, k + 1, line.len());
    assert(line@.skip(k + 1) =~= line@.subrange(k + 1, line@.len() as int));
    Some(trim(rest.as_str()).to_owned())
}

/// Reads the compute-accelerator listing of `pnputil /enum-devices /connected /class
/// ComputeAccelerator`.
pub fn detect_npu(listing: &str) -> (name: Option<String>)
    ensures
        match (name, detect_npu_spec(listing@)) {
            (Some(n), Some(m)) => n@ == m,
            (None, None) => true,
            _ => false,
        },
{
    let chars = chars_of(listing);
    if !line_names_npu(&chars) {
        return None;
    }
    let lines = split_lines(listing);
    let ghost all = lines@.map_values(|l: Vec<char>| l@);
    let mut j: usize = 0;
    assert(all.skip(0) =~= all);
    while j < lines.len()
        invariant
            j <= lines@.len(),
            names_npu(listing@),
            all == newline_fields(listing@),
            all == lines@.map_values(|l: Vec<char>| l@),
            first_npu_line(all) == first_npu_line(all.skip(j as int)),
        decreases lines@.len() - j,
    {
        if line_names_npu(&lines[j]) {
            proof {
                assert(all.skip(j as int)[0] == lines@[j as int]@);
            }
            let found = match name_after_colon(&lines[j]) {
                Some(n) => n,
                None => "Intel AI accelerator".to_owned(),
            };
            return Some(found);
        }
        proof {
            assert(all.skip(j as int).drop_first() =~= all.skip(j + 1));
        }
        j += 1;
    }
    Some("Intel AI accelerator".to_owned())
}

/// The capabilities that the probes support, in the order they are shown: the CPU fallback,
/// CUDA for language models and images (available when `nvidia-smi` answered, unknown
/// otherwise), OpenVINO on an NPU (experimental when one was detected, unknown otherwise), and
/// Vulkan (unknown).
/// The capabilities as the probes found them, in their order: the CPU fallback (available),
/// CUDA for language models and images (available when `nvidia-smi` answered, unknown
/// otherwise), OpenVINO on an NPU (experimental when one was detected, unknown otherwise) and
/// Vulkan (unknown).
pub open spec fn capabilities_as_probed(capabilities: Seq<Capability>, nvidia_answered: bool, npu_detected: bool) -> bool {
    &&& capabilities.len() == 5
    &&& capabilities[0].id@ == "cpu"@ && capabilities[0].status == CapabilityStatus::Available
    &&& capabilities[1].id@ == "llm-cuda"@ && capabilities[1].status == if nvidia_answered { CapabilityStatus::Available } else { CapabilityStatus::Unknown }
    &&& capabilities[2].id@ == "image-cuda"@ && capabilities[2].status == if nvidia_answered { CapabilityStatus::Available } else { CapabilityStatus::Unknown }
    &&& capabilities[3].id@ == "openvino-npu"@ && capabilities[3].status == if npu_detected { CapabilityStatus::Experimental } else { CapabilityStatus::Unknown }
    &&& capabilities[4].id@ == "llm-vulkan"@ && capabilities[4].status == CapabilityStatus::Unknown
}

pub fn probe_capabilities(nvidia_answered: bool, npu_detected: bool) -> (capabilities: Vec<Capability>)
    ensures
        capabilities_as_probed(capabilities@, nvidia_answered, npu_detected),
{
    let mut capabilities: Vec<Capability> = Vec::new();
    capabilities.push(Capability {
        id: "cpu",
        label: "CPU fallback",
        status: CapabilityStatus::Available,
        evidence: "Native processor APIs responded".to_owned(),
    });
    if nvidia_answered {
        capabilities.push(Capability {
            id: "llm-cuda",
            label: "LLM / CUDA",
            status: CapabilityStatus::Available,
            evidence: "NVIDIA driver probe succeeded; engine package still requires validation".to_owned(),
        });
        capabilities.push(Capability {
            id: "image-cuda",
            label: "Images / CUDA",
            status: CapabilityStatus::Available,
            evidence: "NVIDIA driver probe succeeded; engine package still requires validation".to_owned(),
        });
    } else {
        capabilities.push(Capability {
            id: "llm-cuda",
            label: "LLM / CUDA",
            status: CapabilityStatus::Unknown,
            evidence: "nvidia-smi was unavailable; physical GPU state is not assumed".to_owned(),
        });
        capabilities.push(Capability {
            id: "image-cuda",
            label: "Images / CUDA",
            status: CapabilityStatus::Unknown,
            evidence: "nvidia-smi was unavailable; physical GPU state is not assumed".to_owned(),
        });
    }
    if npu_detected {
        capabilities.push(Capability {
            id: "openvino-npu",
            label: "OpenVINO / NPU",
            status: CapabilityStatus::Experimental,
            evidence: "NPU device detected; each OpenVINO model must pass a compile probe".to_owned(),
        });
    } else {
        capabilities.push(Capability {
            id: "openvino-npu",
            label: "OpenVINO / NPU",
            status: CapabilityStatus::Unknown,
            evidence: "No NPU was confirmed by the Windows compute-accelerator probe".to_owned(),
        });
    }
    capabilities.push(Capability {
        id: "llm-vulkan",
        label: "LLM / Vulkan",
        status: CapabilityStatus::Unknown,
        evidence: "Vulkan runtime enumeration is not installed yet".to_owned(),
    });
    capabilities
}

/// The warnings shown with a hardware snapshot: one when no accelerator was confirmed.
pub fn hardware_warnings(device_count: usize) -> (warnings: Vec<String>)
    ensures
        device_count == 0 ==> warnings@.len() == 1 && warnings@[0]@ == "No accelerator was confirmed. CPU inference remains available."@,
        device_count > 0 ==> warnings@.len() == 0,
{
    let mut warnings: Vec<String> = Vec::new();
    if device_count == 0 {
        warnings.push("No accelerator was confirmed. CPU inference remains available.".to_owned());
    }
    warnings
}

/// The processor name: the first CPU's brand, trimmed, or `Unknown processor`.
pub open spec fn cpu_display_name_spec(brand: Option<Seq<char>>) -> Seq<char> {
    match brand {
        Some(b) => if trim_spec(b).len() > 0 { trim_spec(b) } else { "Unknown processor"@ },
        None => "Unknown processor"@,
    }
}

pub fn cpu_display_name(brand: Option<&str>) -> (name: String)
    ensures
        name@ == cpu_display_name_spec(match brand {
            Some(b) => Some(b@),
            None => None,
        }),
{
    match brand {
        Some(b) => {
            let t = trim(b);
            if t.unicode_len() > 0 {
                t.to_owned()
            } else {
                "Unknown processor".to_owned()
            }
        },
        None => "Unknown processor".to_owned(),
    }
}


// ---------------------------------------------------------------------------------------------
// Snapshots
/// The devices of a probe: the GPUs of the `nvidia-smi` rows when it answered, then the NPU
/// that the compute-accelerator listing names.
pub open spec fn probed_gpus(nvidia_rows: Option<Seq<char>>) -> Seq<(Seq<char>, Seq<char>, Option<u64>, Option<u64>, Option<Seq<char>>, Option<Seq<char>>)> {
    match nvidia_rows {
        Some(rows) => nvidia_devices_spec(newline_fields(rows)),
        None => Seq::empty(),
    }
}

/// The NPU device of a detected accelerator name.
pub open spec fn is_npu_device(d: DeviceInfo, name: Seq<char>) -> bool {
    &&& d.id@ == "intel-npu-0"@
    &&& d.kind@ == "npu"@
    &&& d.name@ == name
    &&& d.vendor@ == "Intel"@
    &&& d.memory_total_bytes is None && d.memory_available_bytes is None
    &&& d.utilization_text is None && d.temperature_text is None
}

/// A snapshot of one probe of the machine: the processor named from its brand, the memory,
/// each GPU of the `nvidia-smi` rows (kind `gpu`, vendor NVIDIA) and then the detected NPU
/// (kind `npu`, vendor Intel), the capabilities those probes support, and a warning exactly
/// when no device was found.
pub fn hardware_snapshot(
    cpu_brand: Option<&str>,
    physical_cores: Option<usize>,
    logical_cores: usize,
    cpu_utilization_bits: Option<u32>,
    memory: MemoryInfo,
    nvidia_rows: Option<&str>,
    accelerator_listing: &str,
    captured_at: String,
) -> (snapshot: HardwareSnapshot)
    ensures
        snapshot.captured_at == captured_at,
        snapshot.source@ == "native"@,
        snapshot.cpu.name@ == cpu_display_name_spec(match cpu_brand { Some(b) => Some(b@), None => None }),
        snapshot.cpu.physical_cores == physical_cores,
        snapshot.cpu.logical_cores == logical_cores,
        snapshot.cpu.utilization_percent_bits == cpu_utilization_bits,
        snapshot.memory == memory,
        ({
            let gpus = probed_gpus(match nvidia_rows { Some(r) => Some(r@), None => None });
            &&& snapshot.devices@.len() == gpus.len() + (if detect_npu_spec(accelerator_listing@) is Some { 1int } else { 0int })
            &&& forall|i: int| 0 <= i < gpus.len() ==> device_view(#[trigger] snapshot.devices@[i]) == gpus[i]
                && is_nvidia_gpu(snapshot.devices@[i])
            &&& detect_npu_spec(accelerator_listing@) matches Some(n) ==> is_npu_device(snapshot.devices@[gpus.len() as int], n)
        }),
        capabilities_as_probed(snapshot.capabilities@, nvidia_rows is Some, detect_npu_spec(accelerator_listing@) is Some),
        snapshot.devices@.len() == 0 ==> snapshot.warnings@.len() == 1
            && snapshot.warnings@[0]@ == "No accelerator was confirmed. CPU inference remains available."@,
        snapshot.devices@.len() > 0 ==> snapshot.warnings@.len() == 0,
{
    let mut devices: Vec<DeviceInfo> = match nvidia_rows {
        Some(rows) => parse_nvidia_rows(rows),
        None => Vec::new(),
    };
    let ghost gpus = devices@;
    proof {
        if nvidia_rows is None {
            assert(devices@.map_values(|d: DeviceInfo| device_view(d)) =~= Seq::empty());
        }
        assert forall|i: int| 0 <= i < gpus.len() implies device_view(#[trigger] gpus[i])
            == probed_gpus(match nvidia_rows { Some(r) => Some(r@), None => None })[i] by {
            assert(gpus.map_values(|d: DeviceInfo| device_view(d))[i] == device_view(gpus[i]));
        }
    }
    let npu = detect_npu(accelerator_listing);
    let npu_detected = npu.is_some();
    match npu {
        Some(name) => {
            devices.push(DeviceInfo {
                id: "intel-npu-0".to_owned(),
                kind: "npu",
                name,
                vendor: "Intel".to_owned(),
                memory_total_bytes: None,
                memory_available_bytes: None,
                utilization_text: None,
                temperature_text: None,
            });
        },
        None => {},
    }
    let capabilities = probe_capabilities(nvidia_rows.is_some(), npu_detected);
    let warnings = hardware_warnings(devices.len());
    HardwareSnapshot {
        captured_at,
        source: "native",
        cpu: CpuInfo {
            name: cpu_display_name(cpu_brand),
            physical_cores,
            logical_cores,
            utilization_percent_bits: cpu_utilization_bits,
        },
        memory,
        devices,
        capabilities,
        warnings,
    }
}

/// The last hardware snapshot taken, if any.
pub struct HardwareCache {
    cached: Option<HardwareSnapshot>,
}

impl HardwareCache {
    /// The snapshot held, if one was taken.
    pub closed spec fn cached(self) -> Option<HardwareSnapshot> {
        self.cached
    }

    pub fn new() -> (cache: Self)
        ensures
            cache.cached() is None,
    {
        HardwareCache { cached: None }
    }

    /// The snapshot held; `None` until the first probe was stored.
    pub fn get(&self) -> (snapshot: Option<&HardwareSnapshot>)
        ensures
            match snapshot {
                Some(s) => self.cached() == Some(*s),
                None => self.cached() is None,
            },
    {
        match &self.cached {
            Some(s) => Some(s),
            None => None,
        }
    }

    /// Stores a fresh snapshot in place of the one held.
    pub fn replace(&mut self, snapshot: HardwareSnapshot)
        ensures
            final(self).cached() == Some(snapshot),
    {
        self.cached = Some(snapshot);
    }
}

} // verus!
