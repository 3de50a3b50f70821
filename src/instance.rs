//! Choosing an adapter among those the backends report.
use vstd::prelude::*;
use crate::types::DeviceType;

verus! {

/// Power preference for adapter selection.
#[derive(PartialEq, Eq, Structural, Clone, Copy, Debug)]
pub enum PowerPreference {
    Default,
    LowPower,
    HighPerformance,
}

/// The group a device type is ranked in: integrated, discrete, virtual, or any other.
pub open spec fn rank_group(d: DeviceType) -> u8 {
    match d {
        DeviceType::IntegratedGpu => 0,
        DeviceType::DiscreteGpu => 1,
        DeviceType::VirtualGpu => 2,
        _ => 3,
    }
}

/// The index of the first adapter of group `g`, if any.
pub open spec fn first_in_group(types: Seq<DeviceType>, g: u8) -> Option<usize>
    decreases types.len(),
{
    if types.len() == 0 {
        None
    } else {
        match first_in_group(types.drop_last(), g) {
            Some(i) => Some(i),
            None => if rank_group(types.last()) == g {
                Some((types.len() - 1) as usize)
            } else {
                None
            },
        }
    }
}

/// The groups in the order they are preferred. Without a stated preference the
/// discrete adapter comes first only when the machine is known not to run on battery.
pub open spec fn group_order(preference: PowerPreference, battery_discharging: Option<bool>) -> Seq<u8> {
    match preference {
        PowerPreference::Default => if battery_discharging == Some(false) {
            seq![1u8, 0, 3, 2]
        } else {
            seq![0u8, 1, 3, 2]
        },
        PowerPreference::LowPower => seq![0u8, 3, 1, 2],
        PowerPreference::HighPerformance => seq![1u8, 3, 0, 2],
    }
}

/// The adapter chosen: the first adapter of the first preferred group that has one.
pub open spec fn chosen_adapter(types: Seq<DeviceType>, order: Seq<u8>) -> Option<usize>
    decreases order.len(),
{
    if order.len() == 0 {
        None
    } else {
        match first_in_group(types, order[0]) {
            Some(i) => Some(i),
            None => chosen_adapter(types, order.drop_first()),
        }
    }
}

fn group_of(d: DeviceType) -> (r: u8)
    ensures
        r == rank_group(d),
{
    match d {
        DeviceType::IntegratedGpu => 0,
        DeviceType::DiscreteGpu => 1,
        DeviceType::VirtualGpu => 2,
        _ => 3,
    }
}

/// Picks the adapter to use among adapters of types `device_types`, by
/// `preference`; `battery_discharging` is what the machine reports, if anything.
/// Returns `None` when there is no adapter.
pub fn select_adapter(
    device_types: &Vec<DeviceType>,
    preference: PowerPreference,
    battery_discharging: Option<bool>,
) -> (r: Option<usize>)
    ensures
        device_types@.len() == 0 ==> r is None,
        device_types@.len() > 0 ==> r == Some(
            match chosen_adapter(device_types@, group_order(preference, battery_discharging)) {
                Some(i) => i,
                None => 0usize,
            },
        ),
{
    if device_types.len() == 0 {
        return None;
    }
    let mut first: [Option<usize>; 4] = [None, None, None, None];
    let mut i: usize = 0;
    while i < device_types.len()
        invariant
            i <= device_types@.len(),
            forall|g: int| 0 <= g < 4 ==> #[trigger] first@[g] == first_in_group(device_types@.take(i as int), g as u8),
        decreases device_types@.len() - i,
    {
        let g = group_of(device_types[i]) as usize;
        assert(device_types@.take(i + 1).drop_last() =~= device_types@.take(i as int));
        if first[g].is_none() {
            first[g] = Some(i);
        }
        i = i + 1;
    }
    assert(device_types@.take(i as int) =~= device_types@);
    let order: [u8; 4] = match preference {
        PowerPreference::Default => if battery_discharging == Some(false) {
            [1, 0, 3, 2]
        } else {
            [0, 1, 3, 2]
        },
        PowerPreference::LowPower => [0, 3, 1, 2],
        PowerPreference::HighPerformance => [1, 3, 0, 2],
    };
    let ghost spec_order = group_order(preference, battery_discharging);
    assert(order@ =~= spec_order);
    let mut k: usize = 0;
    assert(spec_order.skip(0) =~= spec_order);
    while k < 4
        invariant
            k <= 4,
            order@ == spec_order,
            spec_order == group_order(preference, battery_discharging),
            device_types@.len() > 0,
            spec_order.len() == 4,
            forall|g: int| 0 <= g < 4 ==> #[trigger] first@[g] == first_in_group(device_types@, g as u8),
            forall|j: int| 0 <= j < 4 ==> #[trigger] spec_order[j] < 4,
            chosen_adapter(device_types@, spec_order) == chosen_adapter(device_types@, spec_order.skip(k as int)),
        decreases 4 - k,
    {
        assert(spec_order.skip(k as int).drop_first() =~= spec_order.skip(k + 1));
        let g = order[k] as usize;
        assert(spec_order.skip(k as int)[0] == spec_order[k as int]);
        assert(first@[g as int] == first_in_group(device_types@, g as u8));
        if let Some(found) = first[g] {
            assert(first_in_group(device_types@, spec_order.skip(k as int)[0]) == Some(found));
            assert(chosen_adapter(device_types@, spec_order.skip(k as int)) == Some(found));
            return Some(found);
        }
        k = k + 1;
    }
    assert(spec_order.skip(4).len() == 0);
    Some(0)
}

} // verus!
