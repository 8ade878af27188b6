use flowscope::event::{FlowSide, L4Proto, Timestamp};
use flowscope::icmp::{
    parse_v4, parse_v6, IcmpFamily, IcmpParseError, IcmpParser, IcmpType, Icmpv4DestUnreachCode,
    Icmpv4Type, Icmpv6ParamProblemCode, Icmpv6Type,
};
use flowscope::net::IpAddr;

fn v4_tcp_header(src: [u8; 4], dst: [u8; 4]) -> Vec<u8> {
    let mut h = vec![0x45, 0, 0, 40, 0, 0, 0, 0, 64, 6, 0, 0];
    h.extend_from_slice(&src);
    h.extend_from_slice(&dst);
    h
}

#[test]
fn v4_echo_request_reads_id_and_seq() {
    let m = parse_v4(&[8, 0, 0, 0, 0x12, 0x34, 0x00, 0x07]).unwrap();
    assert_eq!(m.family, IcmpFamily::V4);
    assert!(matches!(m.ty, IcmpType::V4(Icmpv4Type::EchoRequest { id: 0x1234, seq: 7 })));
}

#[test]
fn v4_short_payload_is_malformed() {
    assert!(matches!(parse_v4(&[8, 0, 0]), Err(IcmpParseError::MalformedV4)));
    // A timestamp must be exactly twenty bytes.
    assert!(matches!(parse_v4(&[13, 0, 0, 0, 0, 1, 0, 1]), Err(IcmpParseError::MalformedV4)));
}

#[test]
fn v4_port_unreachable_quotes_the_flow() {
    let mut p = vec![3, 3, 0, 0, 0, 0, 0, 0];
    p.extend(v4_tcp_header([10, 0, 0, 1], [10, 0, 0, 2]));
    p.extend_from_slice(&[0x9c, 0x40, 0x00, 0x50, 0, 0, 0, 0]);
    let m = parse_v4(&p).unwrap();
    let IcmpType::V4(Icmpv4Type::DestinationUnreachable { code, inner }) = m.ty else {
        panic!("expected destination unreachable");
    };
    assert_eq!(code, Icmpv4DestUnreachCode::Port);
    let inner = inner.expect("inner flow");
    assert_eq!(inner.src, IpAddr::V4(0x0a000001));
    assert_eq!(inner.dst, IpAddr::V4(0x0a000002));
    assert_eq!(inner.proto, L4Proto::Tcp);
    assert_eq!(inner.src_port, Some(40000));
    assert_eq!(inner.dst_port, Some(80));
}

#[test]
fn v4_fragmentation_needed_carries_the_mtu() {
    let m = parse_v4(&[3, 4, 0, 0, 0, 0, 0x05, 0xdc]).unwrap();
    let IcmpType::V4(Icmpv4Type::DestinationUnreachable { code, inner }) = m.ty else {
        panic!("expected destination unreachable");
    };
    assert_eq!(code, Icmpv4DestUnreachCode::FragmentationNeeded { mtu: Some(1500) });
    assert!(inner.is_none(), "no quoted header");
}

#[test]
fn v4_timestamp_reads_all_fields() {
    let mut p = vec![14, 0, 0, 0, 0, 1, 0, 2];
    p.extend_from_slice(&[0, 0, 0, 3, 0, 0, 0, 4, 0, 0, 0, 5]);
    let m = parse_v4(&p).unwrap();
    assert!(matches!(
        m.ty,
        IcmpType::V4(Icmpv4Type::TimestampReply { id: 1, seq: 2, originate: 3, receive: 4, transmit: 5 })
    ));
}

#[test]
fn v4_unknown_type_keeps_the_raw_bytes() {
    let m = parse_v4(&[9, 0, 1, 2, 3, 4, 5, 6, 7, 8]).unwrap();
    let IcmpType::V4(Icmpv4Type::Other { raw_type, raw_code, raw_body }) = m.ty else {
        panic!("expected other");
    };
    assert_eq!((raw_type, raw_code), (9, 0));
    assert_eq!(raw_body, vec![3, 4, 5, 6, 7, 8]);
}

#[test]
fn v6_echo_and_neighbor_messages() {
    let m = parse_v6(&[129, 0, 0, 0, 0, 5, 0, 6]).unwrap();
    assert_eq!(m.family, IcmpFamily::V6);
    assert!(matches!(m.ty, IcmpType::V6(Icmpv6Type::EchoReply { id: 5, seq: 6 })));

    let mut na = vec![136, 0, 0, 0, 0xa0, 0, 0, 0];
    let mut target = [0u8; 16];
    target[0] = 0xfe;
    target[1] = 0x80;
    target[15] = 1;
    na.extend_from_slice(&target);
    let m = parse_v6(&na).unwrap();
    let IcmpType::V6(Icmpv6Type::NeighborAdvertisement { target: t, router, solicited, override_ }) = m.ty
    else {
        panic!("expected neighbor advertisement");
    };
    assert_eq!(t, u128::from_be_bytes(target));
    assert!(router && !solicited && override_);

    let mut ns = vec![135, 0, 0, 0, 0, 0, 0, 0];
    ns.extend_from_slice(&target);
    assert!(matches!(
        parse_v6(&ns).unwrap().ty,
        IcmpType::V6(Icmpv6Type::NeighborSolicitation { .. })
    ));
}

#[test]
fn v6_parameter_problem_keeps_unnamed_codes() {
    let m = parse_v6(&[4, 5, 0, 0, 0, 0, 0, 9]).unwrap();
    let IcmpType::V6(Icmpv6Type::ParameterProblem { code, pointer, inner }) = m.ty else {
        panic!("expected parameter problem");
    };
    assert_eq!(code, Icmpv6ParamProblemCode::Other(5));
    assert_eq!(pointer, 9);
    assert!(inner.is_none());
    assert!(matches!(parse_v6(&[1, 2, 3]), Err(IcmpParseError::MalformedV6)));
}

#[test]
fn parser_pushes_only_selected_and_well_formed_messages() {
    let mut p = IcmpParser::new().v4_only();
    let mut out = Vec::new();
    p.parse(&[8, 0, 0, 0, 0, 1, 0, 1], FlowSide::Initiator, Timestamp::default(), &mut out);
    p.parse(&[128, 0, 0, 0, 0, 1, 0, 1], FlowSide::Initiator, Timestamp::default(), &mut out);
    p.parse(&[8, 0], FlowSide::Initiator, Timestamp::default(), &mut out);
    assert_eq!(out.len(), 1);
    assert_eq!(out[0].family, IcmpFamily::V4);
    let mut any = IcmpParser::new();
    any.parse(&[128, 0, 0, 0, 0, 1, 0, 1], FlowSide::Responder, Timestamp::default(), &mut out);
    assert_eq!(out.len(), 2);
    assert_eq!(out[1].family, IcmpFamily::V6);
}
