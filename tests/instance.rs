use wgpu_core::instance::{select_adapter, PowerPreference};
use wgpu_core::types::DeviceType;

#[test]
fn no_adapter_no_choice() {
    assert_eq!(select_adapter(&vec![], PowerPreference::HighPerformance, None), None);
}

#[test]
fn preference_orders_gpu_kinds() {
    let types = vec![DeviceType::IntegratedGpu, DeviceType::DiscreteGpu];
    assert_eq!(select_adapter(&types, PowerPreference::HighPerformance, None), Some(1));
    assert_eq!(select_adapter(&types, PowerPreference::LowPower, None), Some(0));
    assert_eq!(select_adapter(&types, PowerPreference::Default, Some(false)), Some(1));
    assert_eq!(select_adapter(&types, PowerPreference::Default, Some(true)), Some(0));
    assert_eq!(select_adapter(&types, PowerPreference::Default, None), Some(0));
}

#[test]
fn other_kinds_come_before_virtual() {
    let types = vec![DeviceType::VirtualGpu, DeviceType::Cpu, DeviceType::Other];
    assert_eq!(select_adapter(&types, PowerPreference::HighPerformance, None), Some(1));
    assert_eq!(select_adapter(&types, PowerPreference::LowPower, None), Some(1));
    let only_virtual = vec![DeviceType::VirtualGpu, DeviceType::VirtualGpu];
    assert_eq!(select_adapter(&only_virtual, PowerPreference::Default, None), Some(0));
    let later_discrete = vec![DeviceType::Cpu, DeviceType::DiscreteGpu, DeviceType::DiscreteGpu];
    assert_eq!(select_adapter(&later_discrete, PowerPreference::HighPerformance, None), Some(1));
}
