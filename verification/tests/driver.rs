use std::mem::size_of;
use vdev::guid::{
    IID_IMiniport, IID_IMiniportTopology, IID_IPort, IID_IUnknown, KSAUDFNAME_MASTER_MUTE,
    KSAUDFNAME_MASTER_VOLUME, KSAUDFNAME_MIC_MUTE, KSAUDFNAME_MIC_VOLUME, KSCATEGORY_AUDIO,
    KSNODETYPE_MICROPHONE, KSNODETYPE_MUTE, KSNODETYPE_SPEAKER, KSNODETYPE_VOLUME, GUID,
};
use vdev::ks::{
    BOOLEAN, DEVICE_DESCRIPTION, DMA_SPEED, DMA_WIDTH, INTERFACE_TYPE, KSDATAFORMAT,
    KSDATAFORMAT_WAVEFORMATEX, KSDATARANGE, KSPIN_DATAFLOW_IN, KSPIN_DATAFLOW_OUT,
    KSPIN_DESCRIPTOR, KSPIN_DESCRIPTOR_TAIL, KSPIN_INTERFACE, KSPIN_MEDIUM,
    KSPROPERTY_AUDIO_MUTE, KSPROPERTY_AUDIO_VOLUMELEVEL, KSPROPERTY_DESCRIPTION,
    KSPROPERTY_TYPE_BASICSUPPORT, KSPROPERTY_TYPE_GET, KSPROPERTY_TYPE_SET, KSSTATE,
    PCAUTOMATION_TABLE, PCCONNECTION_DESCRIPTOR, PCFILTER_DESCRIPTOR, PCFILTER_NODE,
    PCNODE_DESCRIPTOR, PCPIN_DESCRIPTOR, PCPROPERTY_ITEM, PCPROPERTY_REQUEST, POINTER_SIZE, PVOID,
    ULONG, VT_I4, WAVEFORMATEX,
};
use vdev::status::{
    E_NOINTERFACE, STATUS_BUFFER_TOO_SMALL, STATUS_DEVICE_BUSY, STATUS_INSUFFICIENT_RESOURCES,
    STATUS_INVALID_DEVICE_REQUEST, STATUS_INVALID_PARAMETER, STATUS_NOT_SUPPORTED,
    STATUS_NO_MATCH, STATUS_SUCCESS, STATUS_UNSUCCESSFUL,
};
use vdev::topology::{
    capture_filter_descriptor, render_filter_descriptor, topo_mute_property_item,
    topo_pin_data_range, topo_volume_property_item, MiniportTopology, TOPO_NODE_COUNT,
};

fn guid_bytes(g: &GUID) -> [u8; 16] {
    let mut b = [0u8; 16];
    b[..4].copy_from_slice(&g.data1.to_le_bytes());
    b[4..6].copy_from_slice(&g.data2.to_le_bytes());
    b[6..8].copy_from_slice(&g.data3.to_le_bytes());
    b[8..].copy_from_slice(&g.data4);
    b
}

fn guid_eq(a: &GUID, b: &GUID) -> bool {
    a.data1 == b.data1 && a.data2 == b.data2 && a.data3 == b.data3 && a.data4 == b.data4
}

#[test]
fn iid_iminiport_and_iid_iport_match_wdk_bytes() {
    let iid_iminiport: [u8; 16] = [
        0x24, 0x0a, 0xc9, 0xb4, 0x91, 0x57, 0xd0, 0x11, 0x86, 0xf9, 0x00, 0xa0, 0xc9, 0x11, 0xb5,
        0x44,
    ];
    let iid_iport: [u8; 16] = [
        0x25, 0x0a, 0xc9, 0xb4, 0x91, 0x57, 0xd0, 0x11, 0x86, 0xf9, 0x00, 0xa0, 0xc9, 0x11, 0xb5,
        0x44,
    ];
    assert_eq!(guid_bytes(&IID_IMiniport()), iid_iminiport);
    assert_eq!(guid_bytes(&IID_IPort()), iid_iport);
}

#[test]
fn ntstatus_values_match_ntstatus_h() {
    assert_eq!(STATUS_SUCCESS, 0);
    assert_eq!(STATUS_UNSUCCESSFUL, 0xC000_0001u32 as i32);
    assert_eq!(STATUS_INSUFFICIENT_RESOURCES, 0xC000_009Au32 as i32);
    assert_eq!(STATUS_INVALID_PARAMETER, 0xC000_000Du32 as i32);
    assert_eq!(STATUS_BUFFER_TOO_SMALL, 0xC000_0023u32 as i32);
    assert_eq!(STATUS_INVALID_DEVICE_REQUEST, 0xC000_0010u32 as i32);
    assert_eq!(STATUS_DEVICE_BUSY, 0x8000_0011u32 as i32);
    assert_eq!(STATUS_NOT_SUPPORTED, 0xC000_00BBu32 as i32);
    assert_eq!(STATUS_NO_MATCH, 0xC000_0272u32 as i32);
    assert_eq!(E_NOINTERFACE, 0x8000_4002u32 as i32);
}

#[test]
fn fundamental_widths_x64() {
    assert_eq!(size_of::<ULONG>(), 4);
    assert_eq!(size_of::<BOOLEAN>(), 1);
    assert_eq!(size_of::<PVOID>(), 8);
    assert_eq!(POINTER_SIZE, 8);
    assert_eq!(GUID::layout().size, 16);
    let state: u32 = KSSTATE::KSSTATE_RUN.value();
    assert_eq!(size_of_val_u32(state), 4);
    assert_eq!(KSPIN_INTERFACE::layout().size, 24);
    assert_eq!(KSPIN_MEDIUM::layout().size, 24);
    assert_eq!(KSDATAFORMAT::layout().size, 64);
    assert_eq!(WAVEFORMATEX::layout().size, 20);
    assert_eq!(KSDATAFORMAT_WAVEFORMATEX::layout().size, 84);
}

fn size_of_val_u32(x: u32) -> usize {
    std::mem::size_of_val(&x)
}

#[test]
fn device_description_layout_x64() {
    assert_eq!(size_of::<ULONG>(), 4);
    assert_eq!(std::mem::size_of_val(&INTERFACE_TYPE::PCIBus.value()), 4);
    assert_eq!(std::mem::size_of_val(&DMA_WIDTH::Width32Bits.value()), 4);
    assert_eq!(std::mem::size_of_val(&DMA_SPEED::Compatible.value()), 4);
    let l = DEVICE_DESCRIPTION::layout();
    assert_eq!(l.size, 40);
    let expected = [0, 4, 5, 6, 7, 8, 9, 10, 11, 12, 16, 20, 24, 28, 32, 36];
    for (i, off) in expected.iter().enumerate() {
        assert_eq!(l.offset(i), *off);
    }
    assert_eq!(INTERFACE_TYPE::InterfaceTypeUndefined.value(), -1);
    assert_eq!(INTERFACE_TYPE::PCIBus.value(), 5);
    assert_eq!(DMA_WIDTH::Width32Bits.value(), 2);
    assert_eq!(DMA_SPEED::Compatible.value(), 0);
}

#[test]
fn ks_pin_descriptor_layout_x64() {
    assert_eq!(KSPIN_DESCRIPTOR_TAIL::size(), 16);
    let l = KSPIN_DESCRIPTOR::layout();
    assert_eq!(l.size, 88);
    let expected = [0, 8, 16, 24, 32, 40, 48, 52, 56, 64, 72];
    for (i, off) in expected.iter().enumerate() {
        assert_eq!(l.offset(i), *off);
    }
}

#[test]
fn pc_pin_descriptor_layout_x64() {
    let l = PCPIN_DESCRIPTOR::layout();
    assert_eq!(l.size, 112);
    let expected = [0, 4, 8, 16, 24];
    for (i, off) in expected.iter().enumerate() {
        assert_eq!(l.offset(i), *off);
    }
}

#[test]
fn pc_filter_descriptor_layout_x64() {
    let l = PCFILTER_DESCRIPTOR::layout();
    assert_eq!(l.size, 80);
    let expected = [0, 8, 16, 20, 24, 32, 36, 40, 48, 56, 64, 72];
    for (i, off) in expected.iter().enumerate() {
        assert_eq!(l.offset(i), *off);
    }
}

#[test]
fn pc_node_and_connection_layout_x64() {
    let node = PCNODE_DESCRIPTOR::layout();
    assert_eq!(node.size, 32);
    assert_eq!(node.offset(0), 0);
    assert_eq!(node.offset(1), 8);
    assert_eq!(node.offset(2), 16);
    assert_eq!(node.offset(3), 24);
    let connection = PCCONNECTION_DESCRIPTOR::layout();
    assert_eq!(connection.size, 16);
    assert_eq!(connection.offset(1), 4);
    assert_eq!(connection.offset(3), 12);
}

#[test]
fn layout_pcproperty_item() {
    let l = PCPROPERTY_ITEM::layout();
    assert_eq!(l.size, 24);
    assert_eq!(l.offset(0), 0);
    assert_eq!(l.offset(1), 8);
    assert_eq!(l.offset(2), 12);
    assert_eq!(l.offset(3), 16);
}

#[test]
fn layout_pcautomation_table() {
    let l = PCAUTOMATION_TABLE::layout();
    assert_eq!(l.size, 56);
    let expected = [0, 4, 8, 16, 20, 24, 32, 36, 40, 48];
    for (i, off) in expected.iter().enumerate() {
        assert_eq!(l.offset(i), *off);
    }
    assert_eq!(PCPROPERTY_ITEM::layout().size % 8, 0);
}

#[test]
fn layout_pcproperty_request() {
    let l = PCPROPERTY_REQUEST::layout();
    assert_eq!(l.size, 72);
    let expected = [0, 8, 16, 24, 32, 36, 40, 48, 56, 64];
    for (i, off) in expected.iter().enumerate() {
        assert_eq!(l.offset(i), *off);
    }
}

#[test]
fn layout_ksproperty_description() {
    let l = KSPROPERTY_DESCRIPTION::layout();
    assert_eq!(l.size, 40);
    let expected = [0, 4, 8, 24, 28, 32, 36];
    for (i, off) in expected.iter().enumerate() {
        assert_eq!(l.offset(i), *off);
    }
}

#[test]
fn descriptor_consistency() {
    for desc in [&render_filter_descriptor(), &capture_filter_descriptor()] {
        assert_eq!(desc.PinSize as usize, PCPIN_DESCRIPTOR::layout().size);
        assert_eq!(desc.NodeSize as usize, PCNODE_DESCRIPTOR::layout().size);
        let pins = &desc.Pins;
        let nodes = &desc.Nodes;
        let conns = &desc.Connections;
        assert_eq!(desc.PinCount as usize, pins.len());
        assert_eq!(desc.NodeCount as usize, nodes.len());
        assert_eq!(desc.ConnectionCount as usize, conns.len());
        assert_eq!(pins.len(), 2);
        assert_eq!(nodes.len(), TOPO_NODE_COUNT);
        assert_eq!(conns.len(), 3);
        for pin in pins {
            assert!(pin.KsPinDescriptor.DataRangesCount >= 1);
            assert!(!pin.KsPinDescriptor.DataRanges.is_empty());
        }
        for (i, node) in nodes.iter().enumerate() {
            let aut = node.AutomationTable.as_ref().expect("table");
            assert_eq!(aut.PropertyItemSize as usize, PCPROPERTY_ITEM::layout().size);
            assert_eq!(aut.PropertyCount, 1);
            assert!(!aut.Properties.is_empty());
            let item = &aut.Properties[0];
            let expected = if i == 0 {
                KSPROPERTY_AUDIO_VOLUMELEVEL
            } else {
                KSPROPERTY_AUDIO_MUTE
            };
            assert_eq!(item.Id, expected);
            assert_eq!(
                item.Flags,
                KSPROPERTY_TYPE_GET | KSPROPERTY_TYPE_SET | KSPROPERTY_TYPE_BASICSUPPORT
            );
        }
        for c in conns {
            assert!(c.FromNode == PCFILTER_NODE || (c.FromNode as usize) < nodes.len());
            assert!(c.ToNode == PCFILTER_NODE || (c.ToNode as usize) < nodes.len());
            assert!((c.FromNodePin as usize) < pins.len());
            assert!((c.ToNodePin as usize) < pins.len());
        }
    }
}

#[test]
fn dataflow_and_categories() {
    let render = render_filter_descriptor();
    let capture = capture_filter_descriptor();
    let render_pins = &render.Pins;
    let capture_pins = &capture.Pins;
    assert_eq!(render_pins[0].KsPinDescriptor.DataFlow, KSPIN_DATAFLOW_IN);
    assert_eq!(render_pins[1].KsPinDescriptor.DataFlow, KSPIN_DATAFLOW_OUT);
    assert_eq!(capture_pins[0].KsPinDescriptor.DataFlow, KSPIN_DATAFLOW_IN);
    assert_eq!(capture_pins[1].KsPinDescriptor.DataFlow, KSPIN_DATAFLOW_OUT);
    assert!(guid_eq(&render_pins[0].KsPinDescriptor.Category, &KSCATEGORY_AUDIO()));
    assert!(guid_eq(&render_pins[1].KsPinDescriptor.Category, &KSNODETYPE_SPEAKER()));
    assert!(guid_eq(&capture_pins[0].KsPinDescriptor.Category, &KSNODETYPE_MICROPHONE()));
    assert!(guid_eq(&capture_pins[1].KsPinDescriptor.Category, &KSCATEGORY_AUDIO()));
    assert!(guid_eq(&render.Nodes[0].Type, &KSNODETYPE_VOLUME()));
    assert!(guid_eq(&render.Nodes[1].Type, &KSNODETYPE_MUTE()));
    assert!(guid_eq(&capture.Nodes[0].Type, &KSNODETYPE_VOLUME()));
    assert!(guid_eq(&capture.Nodes[1].Type, &KSNODETYPE_MUTE()));
}

#[test]
fn guid_transcription_spot_checks() {
    assert_eq!(KSNODETYPE_VOLUME().data1, 0x3a5a_cc00);
    assert_eq!(KSNODETYPE_VOLUME().data2, 0xc557);
    assert_eq!(
        KSNODETYPE_VOLUME().data4,
        [0x8a, 0x2b, 0, 0xa0, 0xc9, 0x25, 0x5a, 0xc1]
    );
    assert_eq!(KSNODETYPE_MUTE().data1, 0x02b2_23c0);
    assert_eq!(KSNODETYPE_SPEAKER().data1, 0xdff2_1ce1);
    assert_eq!(KSNODETYPE_MICROPHONE().data1, 0xdff2_1be1);
    assert_eq!(KSAUDFNAME_MASTER_VOLUME().data1, 0x185f_ede3);
    assert_eq!(KSAUDFNAME_MASTER_MUTE().data1, 0x185f_ede4);
    assert_eq!(KSAUDFNAME_MIC_VOLUME().data1, 0x185f_eded);
    assert_eq!(KSAUDFNAME_MIC_MUTE().data1, 0x185f_edee);
    assert_eq!(IID_IMiniportTopology().data1, 0xb4c9_0a31);
    assert_eq!(
        IID_IMiniportTopology().data4,
        [0x86, 0xf9, 0, 0xa0, 0xc9, 0x11, 0xb5, 0x44]
    );
}

#[test]
fn com_get_description_and_qi() {
    let mut render = MiniportTopology::create(false);
    let capture = MiniportTopology::create(true);
    let (status, desc) = render.get_description();
    assert_eq!(status, STATUS_SUCCESS);
    assert!(guid_eq(&desc.Pins[1].KsPinDescriptor.Category, &KSNODETYPE_SPEAKER()));
    let (status, desc) = capture.get_description();
    assert_eq!(status, STATUS_SUCCESS);
    assert!(guid_eq(&desc.Pins[0].KsPinDescriptor.Category, &KSNODETYPE_MICROPHONE()));

    assert_eq!(render.query_interface(&IID_IUnknown()), (STATUS_SUCCESS, true));
    assert_eq!(render.refcount, 2);
    assert_eq!(render.release(), 1);
    let bogus = GUID { data1: 1, data2: 2, data3: 3, data4: [0; 8] };
    assert_eq!(render.query_interface(&bogus), (E_NOINTERFACE, false));
    assert_eq!(render.refcount, 1);
}

fn request(item: PCPROPERTY_ITEM, verb: u32, size: u32, value: Vec<u8>) -> PCPROPERTY_REQUEST {
    PCPROPERTY_REQUEST {
        MajorTarget: 1,
        MinorTarget: 0,
        Node: 0,
        PropertyItem: Some(item),
        Verb: verb,
        InstanceSize: 0,
        Instance: None,
        ValueSize: size,
        Value: Some(value),
        Irp: 0,
    }
}

fn i32_of(req: &PCPROPERTY_REQUEST) -> i32 {
    let b = req.Value.as_ref().expect("value");
    i32::from_le_bytes([b[0], b[1], b[2], b[3]])
}

#[test]
fn property_handler_get_set_basicsupport() {
    let mut mp = MiniportTopology::create(false);
    let vol_in: i32 = -30 * 65536;
    let mute_in: i32 = 1;

    let mut req = request(
        topo_volume_property_item(),
        KSPROPERTY_TYPE_SET,
        4,
        vol_in.to_le_bytes().to_vec(),
    );
    assert_eq!(mp.property_handler(&mut req), STATUS_SUCCESS);
    req.Verb = KSPROPERTY_TYPE_GET;
    req.Value = Some(vec![0; 4]);
    assert_eq!(mp.property_handler(&mut req), STATUS_SUCCESS);
    assert_eq!(req.ValueSize, 4);
    assert_eq!(i32_of(&req), -30 * 65536);

    req.PropertyItem = Some(topo_mute_property_item());
    req.Verb = KSPROPERTY_TYPE_SET;
    req.Value = Some(mute_in.to_le_bytes().to_vec());
    assert_eq!(mp.property_handler(&mut req), STATUS_SUCCESS);
    req.Verb = KSPROPERTY_TYPE_GET;
    req.Value = Some(vec![0; 4]);
    assert_eq!(mp.property_handler(&mut req), STATUS_SUCCESS);
    assert_eq!(i32_of(&req), 1);

    let all = KSPROPERTY_TYPE_GET | KSPROPERTY_TYPE_SET | KSPROPERTY_TYPE_BASICSUPPORT;
    let full = KSPROPERTY_DESCRIPTION::layout().size;
    req.PropertyItem = Some(topo_volume_property_item());
    req.Verb = KSPROPERTY_TYPE_BASICSUPPORT;
    req.ValueSize = full as u32;
    req.Value = Some(vec![0; 40]);
    assert_eq!(mp.property_handler(&mut req), STATUS_SUCCESS);
    assert_eq!(req.ValueSize as usize, full);
    let b = req.Value.clone().expect("value");
    assert_eq!(u32::from_le_bytes([b[0], b[1], b[2], b[3]]), all);
    assert_eq!(u32::from_le_bytes([b[24], b[25], b[26], b[27]]), VT_I4);
    req.ValueSize = 4;
    assert_eq!(mp.property_handler(&mut req), STATUS_SUCCESS);
    assert_eq!(req.ValueSize, 4);
    let b = req.Value.clone().expect("value");
    assert_eq!(u32::from_le_bytes([b[0], b[1], b[2], b[3]]), all);
    req.ValueSize = 0;
    assert_eq!(mp.property_handler(&mut req), STATUS_BUFFER_TOO_SMALL);

    req.ValueSize = 4;
    req.Node = PCFILTER_NODE;
    assert_eq!(mp.property_handler(&mut req), STATUS_INVALID_PARAMETER);
    req.Node = 2;
    assert_eq!(mp.property_handler(&mut req), STATUS_INVALID_PARAMETER);
}

#[test]
fn bridge_datarange_matches_sysvad() {
    let dr = topo_pin_data_range();
    assert_eq!(KSDATARANGE::layout().size, 64);
    assert_eq!(dr.FormatSize as usize, KSDATARANGE::layout().size);
    assert_eq!(dr.MajorFormat.data1, 0x7364_7561);
    assert_eq!(dr.SubFormat.data1, 0x6dba_3190);
    assert_eq!(dr.Specifier.data1, 0x0f64_17d6);
}
