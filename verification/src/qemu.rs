//! The stored configuration of a virtual machine: which settings and disks a failover replays.
use crate::number::{all_digits, decimal, lemma_decimal, to_decimal};
use crate::pieces::{join, joined, lines, lines_of, pieces, split};
use crate::text::{after_last, chars_of, contains, cut_first, digit, has_prefix, is_digit, is_white, lemma_cut_first_of, lemma_cut_last_of, lemma_trimmed_already, occurs, opt_text, same, split_once, stands_at, starts_with, strip_prefix, tail_after, texts, trim, trimmed, trimmed_start, without_prefix};
use crate::types::{text_outcome, Error};
use vstd::prelude::*;

verus! {

/// A disk of the stored configuration.
#[derive(Debug, PartialEq, Eq)]
pub struct ParsedQemuDisk {
    /// The configuration key, such as `scsi0`.
    pub key: String,
    /// The volume's name on the source.
    pub source_basename: String,
    /// The options to attach the disk with.
    pub attach_options: Option<String>,
}

/// What a disk says.
pub struct DiskView {
    pub key: Seq<char>,
    pub source_basename: Seq<char>,
    pub attach_options: Option<Seq<char>>,
}

impl View for ParsedQemuDisk {
    type V = DiskView;

    open spec fn view(&self) -> DiskView {
        DiskView {
            key: self.key@,
            source_basename: self.source_basename@,
            attach_options: opt_text(self.attach_options),
        }
    }
}

/// The part of a stored configuration that a failover replays.
#[derive(Debug, PartialEq, Eq)]
pub struct ParsedQemuConfig {
    /// The guest's name.
    pub name: Option<String>,
    /// The settings, in the order in which they stand.
    pub settings: Vec<(String, String)>,
    /// The disks, in the order in which they stand.
    pub disks: Vec<ParsedQemuDisk>,
}

/// What a stored configuration says.
pub struct QemuView {
    pub name: Option<Seq<char>>,
    pub settings: Seq<(Seq<char>, Seq<char>)>,
    pub disks: Seq<DiskView>,
}

pub open spec fn settings_view(v: Seq<(String, String)>) -> Seq<(Seq<char>, Seq<char>)> {
    Seq::new(v.len(), |i: int| (v[i].0@, v[i].1@))
}

pub open spec fn disks_view(v: Seq<ParsedQemuDisk>) -> Seq<DiskView> {
    Seq::new(v.len(), |i: int| v[i]@)
}

impl View for ParsedQemuConfig {
    type V = QemuView;

    open spec fn view(&self) -> QemuView {
        QemuView {
            name: opt_text(self.name),
            settings: settings_view(self.settings@),
            disks: disks_view(self.disks@),
        }
    }
}

/// The key is the prefix with a number behind it.
pub open spec fn is_numbered(key: Seq<char>, prefix: Seq<char>) -> bool {
    match without_prefix(key, prefix) {
        Some(number) => number.len() > 0 && all_digits(number),
        None => false,
    }
}

/// The key is one of a disk.
pub open spec fn is_disk_key(key: Seq<char>) -> bool {
    ||| is_numbered(key, "scsi"@)
    ||| is_numbered(key, "virtio"@)
    ||| is_numbered(key, "sata"@)
    ||| is_numbered(key, "ide"@)
    ||| is_numbered(key, "unused"@)
    ||| key == "efidisk0"@
    ||| key == "tpmstate0"@
}

/// The key is one of a setting that a failover replays.
pub open spec fn is_replayable(key: Seq<char>) -> bool {
    ||| key == "agent"@
    ||| key == "balloon"@
    ||| key == "bios"@
    ||| key == "boot"@
    ||| key == "bootdisk"@
    ||| key == "cores"@
    ||| key == "cpu"@
    ||| key == "description"@
    ||| key == "hotplug"@
    ||| key == "machine"@
    ||| key == "memory"@
    ||| key == "name"@
    ||| key == "net0"@
    ||| key == "net1"@
    ||| key == "net2"@
    ||| key == "net3"@
    ||| key == "net4"@
    ||| key == "net5"@
    ||| key == "net6"@
    ||| key == "net7"@
    ||| key == "numa"@
    ||| key == "onboot"@
    ||| key == "ostype"@
    ||| key == "protection"@
    ||| key == "scsihw"@
    ||| key == "serial0"@
    ||| key == "serial1"@
    ||| key == "serial2"@
    ||| key == "serial3"@
    ||| key == "smbios1"@
    ||| key == "sockets"@
    ||| key == "startup"@
    ||| key == "tablet"@
    ||| key == "tags"@
    ||| key == "vga"@
}

/// The options that are kept: neither empty nor a size.
pub open spec fn kept_options(parts: Seq<Seq<char>>) -> Seq<Seq<char>>
    decreases parts.len(),
{
    if parts.len() == 0 {
        seq![]
    } else {
        let front = kept_options(parts.drop_last());
        let entry = trimmed(parts.last());
        if entry.len() == 0 || has_prefix(entry, "size="@) {
            front
        } else {
            front.push(entry)
        }
    }
}

/// The options to attach a disk with.
pub open spec fn attach_options(options: Seq<char>) -> Option<Seq<char>> {
    let kept = kept_options(pieces(options, ','));
    if kept.len() == 0 {
        None
    } else {
        Some(joined(kept, ","@))
    }
}

/// What the names of a guest's volumes start with.
pub open spec fn volume_prefix(vmid: nat) -> Seq<char> {
    "vm-"@ + decimal(vmid) + "-"@
}

/// What one line of a configuration says.
pub enum LineView {
    /// Nothing that is replayed.
    Skip,
    /// The guest's name.
    Name(Seq<char>),
    /// A disk.
    Disk(DiskView),
    /// A setting.
    Setting(Seq<char>, Seq<char>),
}

/// What a disk's entry says: a disk of the guest, unless it is unused or a CD-ROM.
pub open spec fn disk_entry(key: Seq<char>, value: Seq<char>, prefix: Seq<char>) -> LineView {
    let (volid, options) = match cut_first(value, ","@) {
        Some((volid, options)) => (volid, options),
        None => (value, ""@),
    };
    let basename = trimmed(after_last(volid, ":"@));
    if has_prefix(key, "unused"@) || occurs(value, "media=cdrom"@) || !has_prefix(
        basename,
        prefix,
    ) {
        LineView::Skip
    } else {
        LineView::Disk(
            DiskView {
                key,
                source_basename: basename,
                attach_options: attach_options(options),
            },
        )
    }
}

/// What one line of a configuration says.
pub open spec fn line_view(raw: Seq<char>, prefix: Seq<char>) -> LineView {
    let line = trimmed(raw);
    if line.len() == 0 || has_prefix(line, "#"@) {
        LineView::Skip
    } else {
        match cut_first(line, ":"@) {
            None => LineView::Skip,
            Some((key_part, value_part)) => {
                let key = trimmed(key_part);
                let value = trimmed(value_part);
                if key == "name"@ {
                    LineView::Name(value)
                } else if is_disk_key(key) {
                    disk_entry(key, value, prefix)
                } else if is_replayable(key) {
                    LineView::Setting(key, value)
                } else {
                    LineView::Skip
                }
            },
        }
    }
}

/// What the lines of a configuration say: the last name, and the settings and disks in order.
pub open spec fn config_view(all: Seq<Seq<char>>, prefix: Seq<char>) -> QemuView
    decreases all.len(),
{
    if all.len() == 0 {
        QemuView { name: None, settings: seq![], disks: seq![] }
    } else {
        let front = config_view(all.drop_last(), prefix);
        match line_view(all.last(), prefix) {
            LineView::Skip => front,
            LineView::Name(name) => QemuView { name: Some(name), ..front },
            LineView::Disk(disk) => QemuView { disks: front.disks.push(disk), ..front },
            LineView::Setting(key, value) => QemuView {
                settings: front.settings.push((key, value)),
                ..front
            },
        }
    }
}

/// What `parse_qemu_config` answers: a configuration without a disk of the guest is refused.
pub open spec fn parsed_config(config: Seq<char>, vmid: nat) -> Result<QemuView, Seq<char>> {
    let view = config_view(lines_of(config), volume_prefix(vmid));
    if view.disks.len() == 0 {
        Err("no recoverable disk configuration found in stored guest config"@)
    } else {
        Ok(view)
    }
}

pub open spec fn config_outcome(r: Result<ParsedQemuConfig, Error>) -> Result<
    QemuView,
    Seq<char>,
> {
    match r {
        Ok(parsed) => Ok(parsed@),
        Err(e) => Err(e@),
    }
}

fn numbered(key: &str, prefix: &str) -> (r: bool)
    ensures
        r == is_numbered(key@, prefix@),
{
    match strip_prefix(key, prefix) {
        Some(number) => {
            let v = chars_of(number.as_str());
            if v.len() == 0 {
                return false;
            }
            let mut i: usize = 0;
            while i < v.len()
                invariant
                    i <= v.len(),
                    v@ == number@,
                    without_prefix(key@, prefix@) == Some(number@),
                    forall|k: int| 0 <= k < i ==> is_digit(number@[k]),
                decreases v.len() - i,
            {
                if !digit(v[i]) {
                    assert(!is_digit(number@[i as int]));
                    return false;
                }
                i += 1;
            }
            true
        },
        None => false,
    }
}

/// Whether the key is one of a disk.
pub fn is_qemu_disk_key(key: &str) -> (r: bool)
    ensures
        r == is_disk_key(key@),
{
    numbered(key, "scsi") || numbered(key, "virtio") || numbered(key, "sata") || numbered(
        key,
        "ide",
    ) || numbered(key, "unused") || same(key, "efidisk0") || same(key, "tpmstate0")
}

/// Whether the key is one of a setting that a failover replays.
pub fn is_replayable_qemu_setting(key: &str) -> (r: bool)
    ensures
        r == is_replayable(key@),
{
    same(key, "agent") || same(key, "balloon") || same(key, "bios") || same(key, "boot") || same(key, "bootdisk") || same(key, "cores") || same(key, "cpu") || same(key, "description") || same(key, "hotplug") || same(key, "machine") || same(key, "memory") || same(key, "name") || same(key, "net0") || same(key, "net1") || same(key, "net2") || same(key, "net3") || same(key, "net4") || same(key, "net5") || same(key, "net6") || same(key, "net7") || same(key, "numa") || same(key, "onboot") || same(key, "ostype") || same(key, "protection") || same(key, "scsihw") || same(key, "serial0") || same(key, "serial1") || same(key, "serial2") || same(key, "serial3") || same(key, "smbios1") || same(key, "sockets") || same(key, "startup") || same(key, "tablet") || same(key, "tags") || same(key, "vga")
}

/// The options to attach a disk with: all but its size.
pub fn normalize_attach_options(options: &str) -> (r: Option<String>)
    ensures
        opt_text(r) == attach_options(options@),
{
    let parts = split(options, ',');
    let ghost all = pieces(options@, ',');
    let mut kept: Vec<String> = Vec::new();
    let mut i: usize = 0;
    assert(all.take(0) =~= seq![]);
    assert(texts(kept@) =~= kept_options(all.take(0)));
    while i < parts.len()
        invariant
            i <= parts.len(),
            all == texts(parts@),
            texts(kept@) == kept_options(all.take(i as int)),
        decreases parts.len() - i,
    {
        assert(all.take(i + 1).drop_last() =~= all.take(i as int));
        let entry = trim(parts[i].as_str());
        if !entry.as_str().is_empty() && !starts_with(entry.as_str(), "size=") {
            let ghost held = kept@;
            let ghost new = entry@;
            kept.push(entry);
            assert(texts(kept@) =~= texts(held).push(new));
        }
        i += 1;
    }
    assert(all.len() == parts.len());
    assert(all.take(all.len() as int) =~= all);
    assert(texts(kept@).len() == kept.len());
    if kept.len() == 0 {
        None
    } else {
        Some(join(&kept, ","))
    }
}

/// What the names of a guest's volumes start with.
pub fn volume_prefix_of(vmid: u32) -> (r: String)
    ensures
        r@ == volume_prefix(vmid as nat),
{
    let mut prefix = "vm-".to_owned();
    let digits = to_decimal(vmid as u64);
    prefix.append(digits.as_str());
    prefix.append("-");
    prefix
}

/// One line of a configuration.
enum QemuLine {
    Skip,
    Name(String),
    Disk(ParsedQemuDisk),
    Setting(String, String),
}

spec fn line_text(line: QemuLine) -> LineView {
    match line {
        QemuLine::Skip => LineView::Skip,
        QemuLine::Name(name) => LineView::Name(name@),
        QemuLine::Disk(disk) => LineView::Disk(disk@),
        QemuLine::Setting(key, value) => LineView::Setting(key@, value@),
    }
}

fn read_disk(key: String, value: &str, prefix: &str) -> (r: QemuLine)
    ensures
        line_text(r) == disk_entry(key@, value@, prefix@),
{
    let (volid, options) = match split_once(value, ",") {
        Some((volid, options)) => (volid, options),
        None => (value.to_owned(), "".to_owned()),
    };
    let tail = tail_after(volid.as_str(), ":");
    let basename = trim(tail.as_str());
    if starts_with(key.as_str(), "unused") || contains(value, "media=cdrom") || !starts_with(
        basename.as_str(),
        prefix,
    ) {
        return QemuLine::Skip;
    }
    QemuLine::Disk(
        ParsedQemuDisk {
            key,
            source_basename: basename,
            attach_options: normalize_attach_options(options.as_str()),
        },
    )
}

fn read_line(raw: &str, prefix: &str) -> (r: QemuLine)
    ensures
        line_text(r) == line_view(raw@, prefix@),
{
    let line = trim(raw);
    if line.as_str().is_empty() || starts_with(line.as_str(), "#") {
        return QemuLine::Skip;
    }
    match split_once(line.as_str(), ":") {
        None => QemuLine::Skip,
        Some((key_part, value_part)) => {
            let key = trim(key_part.as_str());
            let value = trim(value_part.as_str());
            if same(key.as_str(), "name") {
                QemuLine::Name(value)
            } else if is_qemu_disk_key(key.as_str()) {
                read_disk(key, value.as_str(), prefix)
            } else if is_replayable_qemu_setting(key.as_str()) {
                QemuLine::Setting(key, value)
            } else {
                QemuLine::Skip
            }
        },
    }
}

/// Reads the stored configuration of the guest with the given ID.
pub fn parse_qemu_config(config: &str, source_vmid: u32) -> (r: Result<ParsedQemuConfig, Error>)
    ensures
        config_outcome(r) == parsed_config(config@, source_vmid as nat),
{
    let prefix = volume_prefix_of(source_vmid);
    let list = lines(config);
    let ghost all = lines_of(config@);
    let mut parsed = ParsedQemuConfig { name: None, settings: Vec::new(), disks: Vec::new() };
    let mut i: usize = 0;
    assert(all.take(0) =~= seq![]);
    assert(settings_view(parsed.settings@) =~= seq![]);
    assert(disks_view(parsed.disks@) =~= seq![]);
    while i < list.len()
        invariant
            i <= list.len(),
            all == texts(list@),
            prefix@ == volume_prefix(source_vmid as nat),
            parsed@ == config_view(all.take(i as int), prefix@),
        decreases list.len() - i,
    {
        assert(all.take(i + 1).drop_last() =~= all.take(i as int));
        let ghost settings0 = parsed.settings@;
        let ghost disks0 = parsed.disks@;
        match read_line(list[i].as_str(), prefix.as_str()) {
            QemuLine::Skip => {},
            QemuLine::Name(name) => {
                parsed.name = Some(name);
            },
            QemuLine::Disk(disk) => {
                let ghost new = disk@;
                parsed.disks.push(disk);
                assert(disks_view(parsed.disks@) =~= disks_view(disks0).push(new));
            },
            QemuLine::Setting(key, value) => {
                let ghost new = (key@, value@);
                parsed.settings.push((key, value));
                assert(settings_view(parsed.settings@) =~= settings_view(settings0).push(new));
            },
        }
        i += 1;
    }
    assert(all.len() == list.len());
    assert(all.take(all.len() as int) =~= all);
    assert(disks_view(parsed.disks@).len() == parsed.disks.len());
    if parsed.disks.len() == 0 {
        return Err(Error::new("no recoverable disk configuration found in stored guest config"));
    }
    Ok(parsed)
}

/// The name of a recovered volume: the source volume's, with the recovered guest's ID.
pub open spec fn recovered_basename(basename: Seq<char>, source: nat, recovery: nat) -> Result<
    Seq<char>,
    Seq<char>,
> {
    match without_prefix(basename, volume_prefix(source)) {
        Some(suffix) => Ok(volume_prefix(recovery) + suffix),
        None => Err(
            "disk basename '"@ + basename + "' does not match source vmid "@ + decimal(source),
        ),
    }
}

/// The name of a recovered volume.
pub fn recover_disk_basename(
    source_basename: &str,
    source_vmid: u32,
    recovery_vmid: u32,
) -> (r: Result<String, Error>)
    ensures
        text_outcome(r) == recovered_basename(
            source_basename@,
            source_vmid as nat,
            recovery_vmid as nat,
        ),
{
    let source_prefix = volume_prefix_of(source_vmid);
    match strip_prefix(source_basename, source_prefix.as_str()) {
        Some(suffix) => {
            let mut name = volume_prefix_of(recovery_vmid);
            name.append(suffix.as_str());
            Ok(name)
        },
        None => {
            let vmid = to_decimal(source_vmid as u64);
            let mut message = "disk basename '".to_owned();
            message.append(source_basename);
            message.append("' does not match source vmid ");
            message.append(vmid.as_str());
            Err(Error { message })
        },
    }
}

proof fn lemma_disks_of_guest(all: Seq<Seq<char>>, prefix: Seq<char>, i: int)
    requires
        0 <= i < config_view(all, prefix).disks.len(),
    ensures
        has_prefix(config_view(all, prefix).disks[i].source_basename, prefix),
    decreases all.len(),
{
    if all.len() > 0 {
        let front = config_view(all.drop_last(), prefix);
        if i < front.disks.len() {
            lemma_disks_of_guest(all.drop_last(), prefix, i);
        }
    }
}

/// Every disk of a configuration that was read belongs to the guest, so that a recovered name can
/// be given to it.
pub proof fn law_parsed_disks_can_be_recovered(config: Seq<char>, source: nat, recovery: nat)
    requires
        parsed_config(config, source) is Ok,
    ensures
        forall|i: int|
            0 <= i < parsed_config(config, source)->Ok_0.disks.len() ==> {
                let disk = #[trigger] parsed_config(config, source)->Ok_0.disks[i];
                &&& has_prefix(disk.source_basename, volume_prefix(source))
                &&& recovered_basename(disk.source_basename, source, recovery) is Ok
            },
{
    let prefix = volume_prefix(source);
    let all = lines_of(config);
    assert forall|i: int|
        0 <= i < parsed_config(config, source)->Ok_0.disks.len() implies has_prefix(
        (#[trigger] parsed_config(config, source)->Ok_0.disks[i]).source_basename,
        prefix,
    ) by {
        lemma_disks_of_guest(all, prefix, i);
    }
}

/// A volume that is recovered under another guest's ID and back has its name again.
pub proof fn law_recovering_there_and_back(basename: Seq<char>, source: nat, recovery: nat)
    requires
        recovered_basename(basename, source, recovery) is Ok,
    ensures
        recovered_basename(
            recovered_basename(basename, source, recovery)->Ok_0,
            recovery,
            source,
        ) == Ok::<Seq<char>, Seq<char>>(basename),
{
    let suffix = basename.skip(volume_prefix(source).len() as int);
    let there = volume_prefix(recovery) + suffix;
    assert(there.take(volume_prefix(recovery).len() as int) =~= volume_prefix(recovery));
    assert(there.skip(volume_prefix(recovery).len() as int) =~= suffix);
    assert(volume_prefix(source) + suffix =~= basename) by {
        assert(basename.take(volume_prefix(source).len() as int) == volume_prefix(source));
    }
}

/// No unused disk and no CD-ROM is replayed.
pub proof fn law_unused_disks_and_cdroms_are_left_out(
    key: Seq<char>,
    value: Seq<char>,
    prefix: Seq<char>,
)
    requires
        has_prefix(key, "unused"@) || occurs(value, "media=cdrom"@),
    ensures
        disk_entry(key, value, prefix) is Skip,
{
}

/// Which settings a failover replays: those that another node can take over as they are.
pub proof fn law_settings_that_are_replayed(key: Seq<char>)
    ensures
        is_replayable(key) <==> seq![
            "agent"@,
            "balloon"@,
            "bios"@,
            "boot"@,
            "bootdisk"@,
            "cores"@,
            "cpu"@,
            "description"@,
            "hotplug"@,
            "machine"@,
            "memory"@,
            "name"@,
            "net0"@,
            "net1"@,
            "net2"@,
            "net3"@,
            "net4"@,
            "net5"@,
            "net6"@,
            "net7"@,
            "numa"@,
            "onboot"@,
            "ostype"@,
            "protection"@,
            "scsihw"@,
            "serial0"@,
            "serial1"@,
            "serial2"@,
            "serial3"@,
            "smbios1"@,
            "sockets"@,
            "startup"@,
            "tablet"@,
            "tags"@,
            "vga"@,
        ].contains(key),
{
    let keys = seq![
            "agent"@,
            "balloon"@,
            "bios"@,
            "boot"@,
            "bootdisk"@,
            "cores"@,
            "cpu"@,
            "description"@,
            "hotplug"@,
            "machine"@,
            "memory"@,
            "name"@,
            "net0"@,
            "net1"@,
            "net2"@,
            "net3"@,
            "net4"@,
            "net5"@,
            "net6"@,
            "net7"@,
            "numa"@,
            "onboot"@,
            "ostype"@,
            "protection"@,
            "scsihw"@,
            "serial0"@,
            "serial1"@,
            "serial2"@,
            "serial3"@,
            "smbios1"@,
            "sockets"@,
            "startup"@,
            "tablet"@,
            "tags"@,
            "vga"@,
        ];
    assert(keys[0] == "agent"@);
    assert(keys[1] == "balloon"@);
    assert(keys[2] == "bios"@);
    assert(keys[3] == "boot"@);
    assert(keys[4] == "bootdisk"@);
    assert(keys[5] == "cores"@);
    assert(keys[6] == "cpu"@);
    assert(keys[7] == "description"@);
    assert(keys[8] == "hotplug"@);
    assert(keys[9] == "machine"@);
    assert(keys[10] == "memory"@);
    assert(keys[11] == "name"@);
    assert(keys[12] == "net0"@);
    assert(keys[13] == "net1"@);
    assert(keys[14] == "net2"@);
    assert(keys[15] == "net3"@);
    assert(keys[16] == "net4"@);
    assert(keys[17] == "net5"@);
    assert(keys[18] == "net6"@);
    assert(keys[19] == "net7"@);
    assert(keys[20] == "numa"@);
    assert(keys[21] == "onboot"@);
    assert(keys[22] == "ostype"@);
    assert(keys[23] == "protection"@);
    assert(keys[24] == "scsihw"@);
    assert(keys[25] == "serial0"@);
    assert(keys[26] == "serial1"@);
    assert(keys[27] == "serial2"@);
    assert(keys[28] == "serial3"@);
    assert(keys[29] == "smbios1"@);
    assert(keys[30] == "sockets"@);
    assert(keys[31] == "startup"@);
    assert(keys[32] == "tablet"@);
    assert(keys[33] == "tags"@);
    assert(keys[34] == "vga"@);
}

/// Which keys are disks: those of a bus with a number, an unused disk with a number, and the two
/// disks of the firmware.
pub proof fn law_keys_of_disks(n: nat)
    ensures
        is_disk_key("scsi"@ + decimal(n)),
        is_disk_key("virtio"@ + decimal(n)),
        is_disk_key("sata"@ + decimal(n)),
        is_disk_key("ide"@ + decimal(n)),
        is_disk_key("unused"@ + decimal(n)),
        is_disk_key("efidisk0"@),
        is_disk_key("tpmstate0"@),
{
    lemma_decimal(n);
    lemma_numbered("scsi"@, decimal(n));
    lemma_numbered("virtio"@, decimal(n));
    lemma_numbered("sata"@, decimal(n));
    lemma_numbered("ide"@, decimal(n));
    lemma_numbered("unused"@, decimal(n));
}

proof fn lemma_numbered(prefix: Seq<char>, number: Seq<char>)
    requires
        number.len() > 0,
        all_digits(number),
    ensures
        is_numbered(prefix + number, prefix),
{
    let key = prefix + number;
    assert(key.take(prefix.len() as int) =~= prefix);
    assert(key.skip(prefix.len() as int) =~= number);
}

/// A key that does not end with a digit is no disk, whatever it starts with.
pub proof fn law_keys_without_number_are_no_disks(key: Seq<char>)
    requires
        key.len() == 0 || !is_digit(key.last()),
    ensures
        !is_disk_key(key),
{
    reveal_strlit("efidisk0");
    reveal_strlit("tpmstate0");
    lemma_not_numbered(key, "scsi"@);
    lemma_not_numbered(key, "virtio"@);
    lemma_not_numbered(key, "sata"@);
    lemma_not_numbered(key, "ide"@);
    lemma_not_numbered(key, "unused"@);
}

proof fn lemma_not_numbered(key: Seq<char>, prefix: Seq<char>)
    requires
        key.len() == 0 || !is_digit(key.last()),
    ensures
        !is_numbered(key, prefix),
{
    if let Some(number) = without_prefix(key, prefix) {
        if number.len() > 0 && all_digits(number) {
            assert(is_digit(number[number.len() - 1]));
            assert(number.last() == key.last());
        }
    }
}

proof fn lemma_entry_line(key: Seq<char>, value: Seq<char>)
    requires
        key.len() > 0,
        forall|i: int| 0 <= i < key.len() ==> !is_white(#[trigger] key[i]) && key[i] != ':',
        key[0] != '#',
        value.len() > 0,
        !is_white(value[0]),
        !is_white(value.last()),
    ensures
        ({
            let line = key + ": "@ + value;
            &&& trimmed(line) == line
            &&& !has_prefix(line, "#"@)
            &&& cut_first(line, ":"@) == Some((key, " "@ + value))
            &&& trimmed(key) == key
            &&& trimmed(" "@ + value) == value
        }),
{
    reveal_strlit(": ");
    reveal_strlit(":");
    reveal_strlit(" ");
    reveal_strlit("#");
    let line = key + ": "@ + value;
    assert(line[0] == key[0]);
    assert(line.last() == value.last());
    lemma_trimmed_already(line);
    lemma_trimmed_already(key);
    lemma_trimmed_already(value);
    if has_prefix(line, "#"@) {
        assert(line.take(1)[0] == '#');
    }
    assert(!key.contains(':'));
    lemma_cut_first_of(key, ":"@, " "@ + value);
    assert(line =~= key + ":"@ + (" "@ + value));
    let spaced = " "@ + value;
    assert(spaced.skip(1) =~= value);
    assert(trimmed_start(value) == value);
    assert(trimmed_start(spaced) == value);
}

/// A setting that is replayed is read with the value that stands in its line, and the name is taken
/// for the guest's name. A line with another key says nothing.
pub proof fn law_settings_are_read_back(key: Seq<char>, value: Seq<char>, prefix: Seq<char>)
    requires
        key.len() > 0,
        forall|i: int| 0 <= i < key.len() ==> !is_white(#[trigger] key[i]) && key[i] != ':',
        key[0] != '#',
        value.len() > 0,
        !is_white(value[0]),
        !is_white(value.last()),
        !is_disk_key(key),
    ensures
        key == "name"@ ==> line_view(key + ": "@ + value, prefix) == LineView::Name(value),
        key != "name"@ && is_replayable(key) ==> line_view(key + ": "@ + value, prefix)
            == LineView::Setting(key, value),
        !is_replayable(key) ==> line_view(key + ": "@ + value, prefix) is Skip,
{
    lemma_entry_line(key, value);
}

/// A comment says nothing, and neither does a blank line.
pub proof fn law_comments_say_nothing(text: Seq<char>, prefix: Seq<char>)
    requires
        text.len() == 0 || !is_white(text.last()),
    ensures
        line_view("#"@ + text, prefix) is Skip,
        line_view(Seq::empty(), prefix) is Skip,
{
    reveal_strlit("#");
    let line = "#"@ + text;
    assert(line[0] == '#');
    if text.len() > 0 {
        assert(line.last() == text.last());
    }
    lemma_trimmed_already(line);
    assert(line.take(1) =~= "#"@);
    lemma_trimmed_already(Seq::<char>::empty());
}

/// A disk of the guest is read with its key, its volume and its options. The storage before the
/// volume's name is left out.
pub proof fn law_disks_are_read_back(
    key: Seq<char>,
    storage: Seq<char>,
    volume: Seq<char>,
    options: Seq<char>,
    prefix: Seq<char>,
)
    requires
        is_disk_key(key),
        !has_prefix(key, "unused"@),
        key != "name"@,
        key.len() > 0,
        forall|i: int| 0 <= i < key.len() ==> !is_white(#[trigger] key[i]) && key[i] != ':',
        key[0] != '#',
        storage.len() > 0,
        forall|i: int| 0 <= i < storage.len() ==> !is_white(#[trigger] storage[i]) && storage[i] != ',',
        volume.len() > 0,
        forall|i: int|
            0 <= i < volume.len() ==> !is_white(#[trigger] volume[i]) && volume[i] != ','
                && volume[i] != ':',
        has_prefix(volume, prefix),
        options.len() > 0,
        !is_white(options.last()),
        !occurs(storage + ":"@ + volume + ","@ + options, "media=cdrom"@),
    ensures
        line_view(key + ": "@ + (storage + ":"@ + volume + ","@ + options), prefix)
            == LineView::Disk(
            DiskView { key, source_basename: volume, attach_options: attach_options(options) },
        ),
{
    reveal_strlit(":");
    reveal_strlit(",");
    let value = storage + ":"@ + volume + ","@ + options;
    let volid = storage + ":"@ + volume;
    assert(value[0] == storage[0]);
    assert(value.last() == options.last());
    lemma_entry_line(key, value);
    assert forall|i: int| 0 <= i < volid.len() implies volid[i] != ',' by {
        if i < storage.len() {
            assert(volid[i] == storage[i]);
        } else if i > storage.len() {
            assert(volid[i] == volume[i - storage.len() - 1]);
        }
    }
    assert(!volid.contains(','));
    lemma_cut_first_of(volid, ","@, options);
    assert forall|k: int| storage.len() < k implies !stands_at(volid, ":"@, k) by {
        if stands_at(volid, ":"@, k) {
            assert(volid.subrange(k, k + 1)[0] == ':');
            assert(volume[k - storage.len() - 1] == ':');
        }
    }
    lemma_cut_last_of(storage, ":"@, volume);
    assert(after_last(volid, ":"@) == volume);
    lemma_trimmed_already(volume);
}

/// The options of a disk are kept one by one, in order; empty ones and the size are left out.
pub proof fn law_options_are_kept_but_the_size(
    parts: Seq<Seq<char>>,
    more: Seq<Seq<char>>,
    option: Seq<char>,
)
    ensures
        kept_options(parts + more) == kept_options(parts) + kept_options(more),
        kept_options(seq![option]) == (if trimmed(option).len() == 0 || has_prefix(
            trimmed(option),
            "size="@,
        ) {
            seq![]
        } else {
            seq![trimmed(option)]
        }),
    decreases more.len(),
{
    if more.len() == 0 {
        assert(parts + more =~= parts);
        assert(kept_options(parts) + kept_options(more) =~= kept_options(parts));
    } else {
        assert((parts + more).drop_last() =~= parts + more.drop_last());
        law_options_are_kept_but_the_size(parts, more.drop_last(), option);
        assert(kept_options(parts + more) =~= kept_options(parts) + kept_options(more));
    }
    let one = seq![option];
    assert(one.last() == option);
    assert(one.drop_last() =~= seq![]);
    assert(kept_options(one.drop_last()) =~= seq![]);
    assert(kept_options(one) =~= (if trimmed(option).len() == 0 || has_prefix(
        trimmed(option),
        "size="@,
    ) {
        seq![]
    } else {
        seq![trimmed(option)]
    }));
}

/// Every line is read by itself: settings and disks stand in the order of their lines, none is left
/// out, and of several names the last one counts.
pub proof fn law_configuration_is_read_line_by_line(
    all: Seq<Seq<char>>,
    more: Seq<Seq<char>>,
    prefix: Seq<char>,
)
    ensures
        ({
            let first = config_view(all, prefix);
            let second = config_view(more, prefix);
            let both = config_view(all + more, prefix);
            &&& both.settings == first.settings + second.settings
            &&& both.disks == first.disks + second.disks
            &&& both.name == (if second.name is Some {
                second.name
            } else {
                first.name
            })
        }),
    decreases more.len(),
{
    let first = config_view(all, prefix);
    let second = config_view(more, prefix);
    let both = config_view(all + more, prefix);
    if more.len() == 0 {
        assert(all + more =~= all);
    } else {
        assert((all + more).drop_last() =~= all + more.drop_last());
        law_configuration_is_read_line_by_line(all, more.drop_last(), prefix);
    }
    assert(both.settings =~= first.settings + second.settings);
    assert(both.disks =~= first.disks + second.disks);
}

/// What one line says is all that a configuration of that line says.
pub proof fn law_configuration_of_one_line(line: Seq<char>, prefix: Seq<char>)
    ensures
        ({
            let read = config_view(seq![line], prefix);
            match line_view(line, prefix) {
                LineView::Skip => read.name is None && read.settings.len() == 0
                    && read.disks.len() == 0,
                LineView::Name(name) => read.name == Some(name) && read.settings.len() == 0
                    && read.disks.len() == 0,
                LineView::Disk(disk) => read.name is None && read.settings.len() == 0 && read.disks
                    == seq![disk],
                LineView::Setting(key, value) => read.name is None && read.settings == seq![
                    (key, value),
                ] && read.disks.len() == 0,
            }
        }),
{
    let one = seq![line];
    let nothing = QemuView { name: None, settings: seq![], disks: seq![] };
    assert(one.last() == line);
    assert(one.drop_last() =~= seq![]);
    assert(config_view(one.drop_last(), prefix) == nothing);
    match line_view(line, prefix) {
        LineView::Disk(disk) => {
            assert(nothing.disks.push(disk) =~= seq![disk]);
        },
        LineView::Setting(key, value) => {
            assert(nothing.settings.push((key, value)) =~= seq![(key, value)]);
        },
        _ => {},
    }
}

/// A configuration is refused exactly where it holds no disk of the guest.
pub proof fn law_configuration_needs_a_disk(config: Seq<char>, vmid: nat)
    ensures
        ({
            let read = config_view(lines_of(config), "vm-"@ + decimal(vmid) + "-"@);
            &&& read.disks.len() > 0 ==> parsed_config(config, vmid) == Ok::<QemuView, Seq<char>>(read)
            &&& read.disks.len() == 0 ==> parsed_config(config, vmid) == Err::<QemuView, Seq<char>>(
                "no recoverable disk configuration found in stored guest config"@,
            )
        }),
{
}

/// A recovered volume is named like the source's, with the recovered guest's ID in the place of the
/// source's; a volume of another guest is refused.
pub proof fn law_recovered_volume_changes_its_guest(rest: Seq<char>, source: nat, recovery: nat)
    ensures
        recovered_basename("vm-"@ + decimal(source) + "-"@ + rest, source, recovery) == Ok::<
            Seq<char>,
            Seq<char>,
        >("vm-"@ + decimal(recovery) + "-"@ + rest),
        !has_prefix(rest, "vm-"@ + decimal(source) + "-"@) ==> recovered_basename(
            rest,
            source,
            recovery,
        ) == Err::<Seq<char>, Seq<char>>(
            "disk basename '"@ + rest + "' does not match source vmid "@ + decimal(source),
        ),
{
    let head = "vm-"@ + decimal(source) + "-"@;
    let name = head + rest;
    assert(name.take(head.len() as int) =~= head);
    assert(name.skip(head.len() as int) =~= rest);
}

} // verus!
