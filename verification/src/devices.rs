//! The supported mouse models and their lookup by USB vendor and product id.
use vstd::prelude::*;
use crate::types::ButtonCode;

verus! {

/// Which protocol implementation to use for a device.
#[derive(Debug, Clone, Copy, PartialEq, Eq, Structural)]
pub enum ProtocolKind {
    /// ASUS ROG HID protocol (64-byte hidraw packets).
    Asus,
    /// Razer HID protocol (90-byte USB control transfers).
    Razer,
    /// Corsair HID protocol (64-byte hidraw packets).
    Corsair,
}

/// Describes a supported mouse model.
#[derive(Debug, Clone)]
pub struct DeviceDescriptor {
    pub name: &'static str,
    pub vendor_id: u16,
    pub product_ids: Vec<u16>,
    pub protocol: ProtocolKind,
    pub num_profiles: usize,
    pub button_slots: Vec<ButtonCode>,
    /// Number of buttons per HID button group (ASUS only, others are empty).
    pub button_group_sizes: Vec<usize>,
    pub num_leds: usize,
    pub led_names: Vec<&'static str>,
    pub num_dpi_presets: usize,
    pub dpi_min: u16,
    pub dpi_max: u16,
    pub dpi_step: u16,
    pub brightness_max: u8,
}

/// The mathematical content of a device descriptor.
pub struct DescriptorView {
    pub name: Seq<char>,
    pub vendor_id: u16,
    pub product_ids: Seq<u16>,
    pub protocol: ProtocolKind,
    pub num_profiles: usize,
    pub button_slots: Seq<ButtonCode>,
    pub button_group_sizes: Seq<usize>,
    pub num_leds: usize,
    pub led_names: Seq<Seq<char>>,
    pub num_dpi_presets: usize,
    pub dpi_min: u16,
    pub dpi_max: u16,
    pub dpi_step: u16,
    pub brightness_max: u8,
}

/// The characters of each name in a list of names.
pub open spec fn names_view(names: Seq<&'static str>) -> Seq<Seq<char>> {
    Seq::new(names.len(), |i: int| names[i]@)
}

impl View for DeviceDescriptor {
    type V = DescriptorView;

    open spec fn view(&self) -> DescriptorView {
        DescriptorView {
            name: self.name@,
            vendor_id: self.vendor_id,
            product_ids: self.product_ids@,
            protocol: self.protocol,
            num_profiles: self.num_profiles,
            button_slots: self.button_slots@,
            button_group_sizes: self.button_group_sizes@,
            num_leds: self.num_leds,
            led_names: names_view(self.led_names@),
            num_dpi_presets: self.num_dpi_presets,
            dpi_min: self.dpi_min,
            dpi_max: self.dpi_max,
            dpi_step: self.dpi_step,
            brightness_max: self.brightness_max,
        }
    }
}

/// Whether a descriptor stands for the device with the given ids.
pub open spec fn descriptor_matches(d: DescriptorView, vid: u16, pid: u16) -> bool {
    d.vendor_id == vid && d.product_ids.contains(pid)
}

impl DeviceDescriptor {
    pub fn matches(&self, vid: u16, pid: u16) -> (r: bool)
        ensures
            r == descriptor_matches(self@, vid, pid),
    {
        if self.vendor_id != vid {
            return false;
        }
        let mut i: usize = 0;
        while i < self.product_ids.len()
            invariant
                i <= self.product_ids@.len(),
                self.vendor_id == vid,
                forall|j: int| 0 <= j < i ==> self.product_ids@[j] != pid,
            decreases self.product_ids@.len() - i,
        {
            if self.product_ids[i] == pid {
                assert(self.product_ids@[i as int] == pid);
                return true;
            }
            i = i + 1;
        }
        false
    }
}

// --- Device registry ---

pub open spec fn spatha_x_view() -> DescriptorView {
    DescriptorView {
        name: "ASUS ROG Spatha X"@,
        vendor_id: 0x0B05,
        product_ids: seq![0x1977u16, 0x1979u16],
        protocol: ProtocolKind::Asus,
        num_profiles: 5,
        button_slots: seq![
            ButtonCode::LeftClick,
            ButtonCode::RightClick,
            ButtonCode::MiddleClick,
            ButtonCode::Back,
            ButtonCode::Forward,
            ButtonCode::DpiCycle,
            ButtonCode::ScrollUp,
            ButtonCode::ScrollDown,
            ButtonCode::SideA,
            ButtonCode::SideB,
            ButtonCode::SideC,
            ButtonCode::SideD,
            ButtonCode::SideE,
            ButtonCode::SideF,
        ],
        button_group_sizes: seq![8usize, 6usize],
        num_leds: 3,
        led_names: seq!["logo"@, "wheel"@, "side"@],
        num_dpi_presets: 4,
        dpi_min: 100,
        dpi_max: 19000,
        dpi_step: 50,
        brightness_max: 4,
    }
}

pub open spec fn deathadder_v2_view() -> DescriptorView {
    DescriptorView {
        name: "Razer DeathAdder V2"@,
        vendor_id: 0x1532,
        product_ids: seq![0x0084u16],
        protocol: ProtocolKind::Razer,
        num_profiles: 1,
        button_slots: seq![
            ButtonCode::LeftClick,
            ButtonCode::RightClick,
            ButtonCode::MiddleClick,
            ButtonCode::Back,
            ButtonCode::Forward,
            ButtonCode::DpiCycle,
            ButtonCode::ScrollUp,
            ButtonCode::ScrollDown,
        ],
        button_group_sizes: Seq::empty(),
        num_leds: 2,
        led_names: seq!["logo"@, "scroll"@],
        num_dpi_presets: 5,
        dpi_min: 100,
        dpi_max: 20000,
        dpi_step: 50,
        brightness_max: 255,
    }
}

pub open spec fn scimitar_rgb_elite_view() -> DescriptorView {
    DescriptorView {
        name: "Corsair Scimitar RGB Elite"@,
        vendor_id: 0x1B1C,
        product_ids: seq![0x1B8Bu16],
        protocol: ProtocolKind::Corsair,
        num_profiles: 3,
        button_slots: seq![
            ButtonCode::LeftClick,
            ButtonCode::RightClick,
            ButtonCode::MiddleClick,
            ButtonCode::Back,
            ButtonCode::Forward,
            ButtonCode::DpiCycle,
            ButtonCode::ScrollUp,
            ButtonCode::ScrollDown,
            ButtonCode::SideA,
            ButtonCode::SideB,
            ButtonCode::SideC,
            ButtonCode::SideD,
            ButtonCode::SideE,
            ButtonCode::SideF,
            ButtonCode::SideG,
            ButtonCode::SideH,
            ButtonCode::SideI,
            ButtonCode::SideJ,
            ButtonCode::SideK,
            ButtonCode::SideL,
        ],
        button_group_sizes: Seq::empty(),
        num_leds: 4,
        led_names: seq!["logo"@, "scroll"@, "side_panel"@, "dpi_indicator"@],
        num_dpi_presets: 5,
        dpi_min: 100,
        dpi_max: 18000,
        dpi_step: 1,
        brightness_max: 255,
    }
}

/// The supported devices, in lookup order.
pub open spec fn registry_view() -> Seq<DescriptorView> {
    seq![spatha_x_view(), deathadder_v2_view(), scimitar_rgb_elite_view()]
}

/// ASUS ROG Spatha X.
pub fn spatha_x() -> (r: DeviceDescriptor)
    ensures
        r@ == spatha_x_view(),
{
    let r = DeviceDescriptor {
        name: "ASUS ROG Spatha X",
        vendor_id: 0x0B05,
        product_ids: vec![0x1977, 0x1979],
        protocol: ProtocolKind::Asus,
        num_profiles: 5,
        // Group 0: primary (8), Group 1: side buttons (6)
        // DpiCycle and DpiTarget share one physical button.
        button_slots: vec![
            ButtonCode::LeftClick,
            ButtonCode::RightClick,
            ButtonCode::MiddleClick,
            ButtonCode::Back,
            ButtonCode::Forward,
            ButtonCode::DpiCycle,
            ButtonCode::ScrollUp,
            ButtonCode::ScrollDown,
            ButtonCode::SideA,
            ButtonCode::SideB,
            ButtonCode::SideC,
            ButtonCode::SideD,
            ButtonCode::SideE,
            ButtonCode::SideF,
        ],
        button_group_sizes: vec![8, 6],
        num_leds: 3,
        led_names: vec!["logo", "wheel", "side"],
        num_dpi_presets: 4,
        dpi_min: 100,
        dpi_max: 19000,
        dpi_step: 50,
        brightness_max: 4,
    };
    assert(r@.product_ids =~= spatha_x_view().product_ids);
    assert(r@.button_slots =~= spatha_x_view().button_slots);
    assert(r@.button_group_sizes =~= spatha_x_view().button_group_sizes);
    assert(r@.led_names =~= spatha_x_view().led_names);
    r
}

/// Razer DeathAdder V2.
pub fn deathadder_v2() -> (r: DeviceDescriptor)
    ensures
        r@ == deathadder_v2_view(),
{
    let r = DeviceDescriptor {
        name: "Razer DeathAdder V2",
        vendor_id: 0x1532,
        product_ids: vec![0x0084],
        protocol: ProtocolKind::Razer,
        num_profiles: 1,
        button_slots: vec![
            ButtonCode::LeftClick,
            ButtonCode::RightClick,
            ButtonCode::MiddleClick,
            ButtonCode::Back,
            ButtonCode::Forward,
            ButtonCode::DpiCycle,
            ButtonCode::ScrollUp,
            ButtonCode::ScrollDown,
        ],
        button_group_sizes: Vec::new(),
        num_leds: 2,
        led_names: vec!["logo", "scroll"],
        num_dpi_presets: 5,
        dpi_min: 100,
        dpi_max: 20000,
        dpi_step: 50,
        brightness_max: 255,
    };
    assert(r@.product_ids =~= deathadder_v2_view().product_ids);
    assert(r@.button_slots =~= deathadder_v2_view().button_slots);
    assert(r@.button_group_sizes =~= deathadder_v2_view().button_group_sizes);
    assert(r@.led_names =~= deathadder_v2_view().led_names);
    r
}

/// Corsair Scimitar RGB Elite.
pub fn scimitar_rgb_elite() -> (r: DeviceDescriptor)
    ensures
        r@ == scimitar_rgb_elite_view(),
{
    let r = DeviceDescriptor {
        name: "Corsair Scimitar RGB Elite",
        vendor_id: 0x1B1C,
        product_ids: vec![0x1B8B],
        protocol: ProtocolKind::Corsair,
        num_profiles: 3,
        button_slots: vec![
            ButtonCode::LeftClick,
            ButtonCode::RightClick,
            ButtonCode::MiddleClick,
            ButtonCode::Back,
            ButtonCode::Forward,
            ButtonCode::DpiCycle,
            ButtonCode::ScrollUp,
            ButtonCode::ScrollDown,
            // 12 side buttons (Scimitar thumb grid)
            ButtonCode::SideA,
            ButtonCode::SideB,
            ButtonCode::SideC,
            ButtonCode::SideD,
            ButtonCode::SideE,
            ButtonCode::SideF,
            ButtonCode::SideG,
            ButtonCode::SideH,
            ButtonCode::SideI,
            ButtonCode::SideJ,
            ButtonCode::SideK,
            ButtonCode::SideL,
        ],
        button_group_sizes: Vec::new(),
        num_leds: 4,
        led_names: vec!["logo", "scroll", "side_panel", "dpi_indicator"],
        num_dpi_presets: 5,
        dpi_min: 100,
        dpi_max: 18000,
        dpi_step: 1,
        brightness_max: 255,
    };
    assert(r@.product_ids =~= scimitar_rgb_elite_view().product_ids);
    assert(r@.button_slots =~= scimitar_rgb_elite_view().button_slots);
    assert(r@.button_group_sizes =~= scimitar_rgb_elite_view().button_group_sizes);
    assert(r@.led_names =~= scimitar_rgb_elite_view().led_names);
    r
}

/// The supported devices, in lookup order.
pub fn registry() -> (r: Vec<DeviceDescriptor>)
    ensures
        r@.len() == registry_view().len(),
        forall|i: int| 0 <= i < r@.len() ==> #[trigger] r@[i]@ == registry_view()[i],
{
    let mut r = Vec::new();
    r.push(spatha_x());
    r.push(deathadder_v2());
    r.push(scimitar_rgb_elite());
    r
}

/// The first descriptor in `ds` that matches the ids.
pub open spec fn first_match(ds: Seq<DescriptorView>, vid: u16, pid: u16) -> Option<DescriptorView>
    decreases ds.len(),
{
    if ds.len() == 0 {
        None
    } else if descriptor_matches(ds[0], vid, pid) {
        Some(ds[0])
    } else {
        first_match(ds.drop_first(), vid, pid)
    }
}

/// Looks up the supported device with the given ids: the first registry entry that matches.
pub fn find_descriptor(vid: u16, pid: u16) -> (r: Option<DeviceDescriptor>)
    ensures
        match r {
            Some(d) => first_match(registry_view(), vid, pid) == Some(d@),
            None => first_match(registry_view(), vid, pid) is None,
        },
{
    let mut reg = registry();
    let ghost all = registry_view();
    let mut i: usize = 0;
    assert(all.subrange(0, all.len() as int) =~= all);
    while i < reg.len()
        invariant
            reg@.len() == all.len(),
            all == registry_view(),
            i <= reg@.len(),
            forall|k: int| 0 <= k < reg@.len() ==> #[trigger] reg@[k]@ == all[k],
            first_match(all, vid, pid) == first_match(all.subrange(i as int, all.len() as int), vid, pid),
        decreases reg@.len() - i,
    {
        let ghost rest = all.subrange(i as int, all.len() as int);
        assert(rest[0] == all[i as int]);
        assert(rest.drop_first() =~= all.subrange(i + 1, all.len() as int));
        if reg[i].matches(vid, pid) {
            let d = reg.remove(i);
            return Some(d);
        }
        i = i + 1;
    }
    None
}

/// A found descriptor matches the ids that were looked up, and a device that
/// some registry entry matches is always found.
pub proof fn lemma_find_descriptor_matches(vid: u16, pid: u16)
    ensures
        first_match(registry_view(), vid, pid) matches Some(d) ==> descriptor_matches(d, vid, pid),
        first_match(registry_view(), vid, pid) is None <==> forall|i: int|
            0 <= i < registry_view().len() ==> !descriptor_matches(#[trigger] registry_view()[i], vid, pid),
{
    lemma_first_match(registry_view(), vid, pid);
}

proof fn lemma_first_match(ds: Seq<DescriptorView>, vid: u16, pid: u16)
    ensures
        first_match(ds, vid, pid) matches Some(d) ==> descriptor_matches(d, vid, pid),
        first_match(ds, vid, pid) is None <==> forall|i: int|
            0 <= i < ds.len() ==> !descriptor_matches(#[trigger] ds[i], vid, pid),
    decreases ds.len(),
{
    if ds.len() > 0 {
        lemma_first_match(ds.drop_first(), vid, pid);
        if !descriptor_matches(ds[0], vid, pid) {
            assert forall|i: int| 0 <= i < ds.len() && (forall|j: int|
                0 <= j < ds.drop_first().len() ==> !descriptor_matches(#[trigger] ds.drop_first()[j], vid, pid))
                implies !descriptor_matches(ds[i], vid, pid) by {
                if i > 0 {
                    assert(ds[i] == ds.drop_first()[i - 1]);
                }
            }
            assert((forall|i: int| 0 <= i < ds.len() ==> !descriptor_matches(#[trigger] ds[i], vid, pid))
                ==> (forall|j: int| 0 <= j < ds.drop_first().len() ==> !descriptor_matches(#[trigger] ds.drop_first()[j], vid, pid)))
            by {
                assert forall|j: int| 0 <= j < ds.drop_first().len() && (forall|i: int| 0 <= i < ds.len() ==> !descriptor_matches(#[trigger] ds[i], vid, pid))
                    implies !descriptor_matches(ds.drop_first()[j], vid, pid) by {
                    assert(ds.drop_first()[j] == ds[j + 1]);
                }
            }
        }
    }
}

} // verus!
