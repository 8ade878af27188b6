use flowscope::event::L4Proto;
use flowscope::icmp::{
    detect_family, DestUnreachableKind, IcmpParser, IcmpFamily, IcmpInner, IcmpMessage, IcmpType, Icmpv4DestUnreachCode,
    Icmpv4TimeExceededCode, Icmpv4Type, Icmpv6DestUnreachCode, Icmpv6Type, MtuSignalKind,
};
use flowscope::net::IpAddr;

fn du_v4(code: Icmpv4DestUnreachCode) -> IcmpType {
    IcmpType::V4(Icmpv4Type::DestinationUnreachable { code, inner: None })
}

fn du_v6(code: Icmpv6DestUnreachCode) -> IcmpType {
    IcmpType::V6(Icmpv6Type::DestinationUnreachable { code, inner: None })
}


#[test]
fn dest_unreachable_kind_returns_none_for_echo_request() {
    let t = IcmpType::V4(Icmpv4Type::EchoRequest { id: 1, seq: 1 });
    assert_eq!(t.dest_unreachable_kind(), None);
}

#[test]
fn dest_unreachable_kind_returns_none_for_time_exceeded() {
    let t = IcmpType::V4(Icmpv4Type::TimeExceeded {
        code: Icmpv4TimeExceededCode::HopLimitExceeded,
        inner: None,
    });
    assert_eq!(t.dest_unreachable_kind(), None);
}

#[test]
fn dest_unreachable_kind_returns_none_for_v6_packet_too_big() {
    // v6 PacketTooBig is type 2, not a code under DU.
    let t = IcmpType::V6(Icmpv6Type::PacketTooBig {
        mtu: 1500,
        inner: None,
    });
    assert_eq!(t.dest_unreachable_kind(), None);
}

#[test]
fn v4_host_codes_map_to_host_kind() {
    for code in [
        Icmpv4DestUnreachCode::Host,
        Icmpv4DestUnreachCode::DestHostUnknown,
        Icmpv4DestUnreachCode::SourceHostIsolated,
    ] {
        assert_eq!(
            du_v4(code).dest_unreachable_kind(),
            Some(DestUnreachableKind::Host),
        );
    }
}

#[test]
fn v4_port_maps_to_port_kind() {
    assert_eq!(
        du_v4(Icmpv4DestUnreachCode::Port).dest_unreachable_kind(),
        Some(DestUnreachableKind::Port),
    );
}

#[test]
fn v4_network_codes_map_to_network_kind() {
    for code in [
        Icmpv4DestUnreachCode::Net,
        Icmpv4DestUnreachCode::DestNetworkUnknown,
    ] {
        assert_eq!(
            du_v4(code).dest_unreachable_kind(),
            Some(DestUnreachableKind::Network),
        );
    }
}

#[test]
fn v4_protocol_maps_to_protocol_kind() {
    assert_eq!(
        du_v4(Icmpv4DestUnreachCode::Protocol).dest_unreachable_kind(),
        Some(DestUnreachableKind::Protocol),
    );
}

#[test]
fn v4_prohibited_codes_map_to_administratively_prohibited() {
    for code in [
        Icmpv4DestUnreachCode::NetworkProhibited,
        Icmpv4DestUnreachCode::HostProhibited,
        Icmpv4DestUnreachCode::CommunicationProhibited,
        Icmpv4DestUnreachCode::PrecedenceCutoffInEffect,
    ] {
        assert_eq!(
            du_v4(code).dest_unreachable_kind(),
            Some(DestUnreachableKind::AdministrativelyProhibited),
        );
    }
}

#[test]
fn v4_fragmentation_needed_maps_to_fragmentation_needed_kind() {
    let code = Icmpv4DestUnreachCode::FragmentationNeeded { mtu: Some(1400) };
    assert_eq!(
        du_v4(code).dest_unreachable_kind(),
        Some(DestUnreachableKind::FragmentationNeeded),
    );
}

#[test]
fn v4_other_codes_map_to_other_kind() {
    for code in [
        Icmpv4DestUnreachCode::SourceRouteFailed,
        Icmpv4DestUnreachCode::NetworkTos,
        Icmpv4DestUnreachCode::HostTos,
        Icmpv4DestUnreachCode::HostPrecedenceViolation,
        Icmpv4DestUnreachCode::Other(42),
    ] {
        assert_eq!(
            du_v4(code).dest_unreachable_kind(),
            Some(DestUnreachableKind::Other),
        );
    }
}

#[test]
fn v6_address_unreachable_maps_to_host_kind() {
    assert_eq!(
        du_v6(Icmpv6DestUnreachCode::AddressUnreachable).dest_unreachable_kind(),
        Some(DestUnreachableKind::Host),
    );
}

#[test]
fn v6_port_unreachable_maps_to_port_kind() {
    assert_eq!(
        du_v6(Icmpv6DestUnreachCode::PortUnreachable).dest_unreachable_kind(),
        Some(DestUnreachableKind::Port),
    );
}

#[test]
fn v6_no_route_maps_to_network_kind() {
    assert_eq!(
        du_v6(Icmpv6DestUnreachCode::NoRoute).dest_unreachable_kind(),
        Some(DestUnreachableKind::Network),
    );
}

#[test]
fn v6_prohibited_codes_map_to_administratively_prohibited() {
    for code in [
        Icmpv6DestUnreachCode::AdminProhibited,
        Icmpv6DestUnreachCode::RejectRouteToDestination,
        Icmpv6DestUnreachCode::SourceAddressFailedIngressPolicy,
    ] {
        assert_eq!(
            du_v6(code).dest_unreachable_kind(),
            Some(DestUnreachableKind::AdministrativelyProhibited),
        );
    }
}

#[test]
fn v6_beyond_scope_maps_to_other_kind() {
    assert_eq!(
        du_v6(Icmpv6DestUnreachCode::BeyondScopeOfSource).dest_unreachable_kind(),
        Some(DestUnreachableKind::Other),
    );
}

#[test]
fn as_str_returns_stable_slugs() {
    // Regression-pin the slugs — downstream metric pipelines depend on them.
    assert_eq!(DestUnreachableKind::Host.as_str(), "host_unreachable");
    assert_eq!(DestUnreachableKind::Port.as_str(), "port_unreachable");
    assert_eq!(DestUnreachableKind::Network.as_str(), "network_unreachable");
    assert_eq!(
        DestUnreachableKind::Protocol.as_str(),
        "protocol_unreachable"
    );
    assert_eq!(
        DestUnreachableKind::AdministrativelyProhibited.as_str(),
        "administratively_prohibited",
    );
    assert_eq!(
        DestUnreachableKind::FragmentationNeeded.as_str(),
        "fragmentation_needed",
    );
    assert_eq!(
        DestUnreachableKind::Other.as_str(),
        "dest_unreachable_other"
    );
}

#[test]
fn types_module_is_publicly_reachable() {
    let _: flowscope::icmp::types::Icmpv6DestUnreachCode =
        flowscope::icmp::types::Icmpv6DestUnreachCode::NoRoute;
}


#[test]
fn mtu_signal_returns_none_for_echo() {
    let t = IcmpType::V4(Icmpv4Type::EchoRequest { id: 1, seq: 1 });
    assert_eq!(t.mtu_signal(), None);
}

#[test]
fn mtu_signal_returns_none_for_non_fragneeded_du() {
    for code in [
        Icmpv4DestUnreachCode::Host,
        Icmpv4DestUnreachCode::Port,
        Icmpv4DestUnreachCode::Net,
    ] {
        assert_eq!(du_v4(code).mtu_signal(), None);
    }
    for code in [
        Icmpv6DestUnreachCode::AddressUnreachable,
        Icmpv6DestUnreachCode::PortUnreachable,
        Icmpv6DestUnreachCode::NoRoute,
    ] {
        assert_eq!(du_v6(code).mtu_signal(), None);
    }
}

#[test]
fn mtu_signal_v4_fragneeded_with_mtu() {
    let t = du_v4(Icmpv4DestUnreachCode::FragmentationNeeded { mtu: Some(1492) });
    assert_eq!(
        t.mtu_signal(),
        Some(MtuSignalKind::FragmentationNeeded {
            next_hop_mtu: Some(1492)
        }),
    );
    assert_eq!(t.mtu_signal().unwrap().next_hop_mtu(), Some(1492));
}

#[test]
fn mtu_signal_v4_fragneeded_without_mtu() {
    // RFC 1191 non-conformant sender — mtu field is 0/absent.
    let t = du_v4(Icmpv4DestUnreachCode::FragmentationNeeded { mtu: None });
    assert_eq!(
        t.mtu_signal(),
        Some(MtuSignalKind::FragmentationNeeded { next_hop_mtu: None }),
    );
    assert_eq!(t.mtu_signal().unwrap().next_hop_mtu(), None);
}

#[test]
fn mtu_signal_v6_packet_too_big() {
    let t = IcmpType::V6(Icmpv6Type::PacketTooBig {
        mtu: 1500,
        inner: None,
    });
    assert_eq!(
        t.mtu_signal(),
        Some(MtuSignalKind::PacketTooBig { next_hop_mtu: 1500 }),
    );
    assert_eq!(t.mtu_signal().unwrap().next_hop_mtu(), Some(1500));
}

#[test]
fn mtu_signal_as_str_stable_slugs() {
    assert_eq!(
        MtuSignalKind::FragmentationNeeded {
            next_hop_mtu: Some(1492)
        }
        .as_str(),
        "fragmentation_needed",
    );
    assert_eq!(
        MtuSignalKind::FragmentationNeeded { next_hop_mtu: None }.as_str(),
        "fragmentation_needed",
    );
    assert_eq!(
        MtuSignalKind::PacketTooBig { next_hop_mtu: 1280 }.as_str(),
        "packet_too_big",
    );
}

#[test]
fn mtu_signal_proxies_via_icmp_message() {
    // Verify the IcmpMessage proxy method.
    let msg = IcmpMessage {
        family: IcmpFamily::V4,
        ty: du_v4(Icmpv4DestUnreachCode::FragmentationNeeded { mtu: Some(576) }),
    };
    assert_eq!(
        msg.mtu_signal(),
        Some(MtuSignalKind::FragmentationNeeded {
            next_hop_mtu: Some(576)
        }),
    );
}


#[test]
fn error_types_expose_their_inner_flow() {
    let inner = IcmpInner::new(IpAddr::V4(0x0a00_0001), IpAddr::V4(0x0a00_0002), L4Proto::Udp, Some(53), Some(5353));
    let t = IcmpType::V4(Icmpv4Type::TimeExceeded {
        code: Icmpv4TimeExceededCode::HopLimitExceeded,
        inner: Some(inner),
    });
    assert!(t.is_error());
    assert_eq!(t.short_kind(), "time_exceeded");
    let (label, got) = t.error_inner().unwrap();
    assert_eq!(label, "time_exceeded");
    assert_eq!(*got, inner);
    let echo = IcmpType::V6(Icmpv6Type::EchoReply { id: 1, seq: 2 });
    assert!(!echo.is_error());
    assert!(echo.error_inner().is_none());
    assert_eq!(echo.short_kind(), "echo_reply");
    let bare = IcmpType::V6(Icmpv6Type::PacketTooBig { mtu: 1280, inner: None });
    assert!(bare.is_error());
    assert!(bare.error_inner().is_none());
}

#[test]
fn message_proxies_agree_with_the_type() {
    let msg = IcmpMessage::new(IcmpFamily::V6, IcmpType::V6(Icmpv6Type::NeighborSolicitation { target: 1 }));
    assert_eq!(msg.short_kind(), "neighbor_solicitation");
    assert!(!msg.is_error());
    assert_eq!(msg.dest_unreachable_kind(), None);
    assert!(msg.error_inner().is_none());
    assert_eq!(flowscope::icmp::PARSER_KIND, "icmp");
}

#[test]
fn family_detection_by_type_and_quoted_header() {
    assert_eq!(detect_family(&[]), None);
    // Echo request and reply are ICMPv4; 128 and above is ICMPv6.
    assert_eq!(detect_family(&[8, 0, 0, 0]), Some(IcmpFamily::V4));
    assert_eq!(detect_family(&[0]), Some(IcmpFamily::V4));
    assert_eq!(detect_family(&[128, 0]), Some(IcmpFamily::V6));
    assert_eq!(detect_family(&[135, 0]), Some(IcmpFamily::V6));
    // Type 1 to 4 errors: the quoted header's version nibble decides.
    let mut v6_err = vec![1u8, 4, 0, 0, 0, 0, 0, 0, 0x60, 0, 0, 0];
    assert_eq!(detect_family(&v6_err), Some(IcmpFamily::V6));
    v6_err[8] = 0x45;
    assert_eq!(detect_family(&v6_err), Some(IcmpFamily::V4));
    // Too short to quote a header: ICMPv4.
    assert_eq!(detect_family(&[3, 1, 0, 0, 0, 0, 0, 0]), Some(IcmpFamily::V4));
}

#[test]
fn restricted_parsers_skip_the_other_family() {
    let echo_v4 = [8u8, 0, 0, 0, 0, 1, 0, 1];
    let echo_v6 = [128u8, 0, 0, 0, 0, 1, 0, 1];
    let any = IcmpParser::new();
    assert_eq!(any.select_family(&echo_v4), Some(IcmpFamily::V4));
    assert_eq!(any.select_family(&echo_v6), Some(IcmpFamily::V6));
    let v4 = IcmpParser::new().v4_only();
    assert_eq!(v4.select_family(&echo_v4), Some(IcmpFamily::V4));
    assert_eq!(v4.select_family(&echo_v6), None);
    let v6 = IcmpParser::default().v6_only();
    assert_eq!(v6.select_family(&echo_v4), None);
    assert_eq!(v6.select_family(&echo_v6), Some(IcmpFamily::V6));
    assert_eq!(v6.select_family(&[]), None);
}
