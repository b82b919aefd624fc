//! The information-element table: the mapping from an
//! `(enterprise_number, information_element_identifier)` pair to the
//! element's name and abstract data type.
//!
//! The entries for enterprise number 0 come from the IANA IPFIX Entities
//! registry; rows with list-shaped abstract types are not carried.  A
//! [`Formatter`] starts from that table and can be extended with
//! vendor-specific entries, later entries overriding earlier ones.

use vstd::prelude::*;

use crate::types::DataRecordType;

verus! {

/// The IANA registry entry for element `id` under enterprise number 0.
pub open spec fn spec_iana_entry(id: u16) -> Option<(Seq<char>, DataRecordType)> {
    match id {
        1u16 => Some(("octetDeltaCount"@, DataRecordType::UnsignedInt)),
        2u16 => Some(("packetDeltaCount"@, DataRecordType::UnsignedInt)),
        4u16 => Some(("protocolIdentifier"@, DataRecordType::UnsignedInt)),
        5u16 => Some(("ipClassOfService"@, DataRecordType::UnsignedInt)),
        6u16 => Some(("tcpControlBits"@, DataRecordType::UnsignedInt)),
        7u16 => Some(("sourceTransportPort"@, DataRecordType::UnsignedInt)),
        8u16 => Some(("sourceIPv4Address"@, DataRecordType::Ipv4Addr)),
        9u16 => Some(("sourceIPv4PrefixLength"@, DataRecordType::UnsignedInt)),
        10u16 => Some(("ingressInterface"@, DataRecordType::UnsignedInt)),
        11u16 => Some(("destinationTransportPort"@, DataRecordType::UnsignedInt)),
        12u16 => Some(("destinationIPv4Address"@, DataRecordType::Ipv4Addr)),
        13u16 => Some(("destinationIPv4PrefixLength"@, DataRecordType::UnsignedInt)),
        14u16 => Some(("egressInterface"@, DataRecordType::UnsignedInt)),
        15u16 => Some(("ipNextHopIPv4Address"@, DataRecordType::Ipv4Addr)),
        16u16 => Some(("bgpSourceAsNumber"@, DataRecordType::UnsignedInt)),
        17u16 => Some(("bgpDestinationAsNumber"@, DataRecordType::UnsignedInt)),
        18u16 => Some(("bgpNextHopIPv4Address"@, DataRecordType::Ipv4Addr)),
        19u16 => Some(("postMCastPacketDeltaCount"@, DataRecordType::UnsignedInt)),
        20u16 => Some(("postMCastOctetDeltaCount"@, DataRecordType::UnsignedInt)),
        21u16 => Some(("flowEndSysUpTime"@, DataRecordType::UnsignedInt)),
        22u16 => Some(("flowStartSysUpTime"@, DataRecordType::UnsignedInt)),
        23u16 => Some(("postOctetDeltaCount"@, DataRecordType::UnsignedInt)),
        24u16 => Some(("postPacketDeltaCount"@, DataRecordType::UnsignedInt)),
        25u16 => Some(("minimumIpTotalLength"@, DataRecordType::UnsignedInt)),
        26u16 => Some(("maximumIpTotalLength"@, DataRecordType::UnsignedInt)),
        27u16 => Some(("sourceIPv6Address"@, DataRecordType::Ipv6Addr)),
        28u16 => Some(("destinationIPv6Address"@, DataRecordType::Ipv6Addr)),
        29u16 => Some(("sourceIPv6PrefixLength"@, DataRecordType::UnsignedInt)),
        30u16 => Some(("destinationIPv6PrefixLength"@, DataRecordType::UnsignedInt)),
        31u16 => Some(("flowLabelIPv6"@, DataRecordType::UnsignedInt)),
        32u16 => Some(("icmpTypeCodeIPv4"@, DataRecordType::UnsignedInt)),
        33u16 => Some(("igmpType"@, DataRecordType::UnsignedInt)),
        36u16 => Some(("flowActiveTimeout"@, DataRecordType::UnsignedInt)),
        37u16 => Some(("flowIdleTimeout"@, DataRecordType::UnsignedInt)),
        40u16 => Some(("exportedOctetTotalCount"@, DataRecordType::UnsignedInt)),
        41u16 => Some(("exportedMessageTotalCount"@, DataRecordType::UnsignedInt)),
        42u16 => Some(("exportedFlowRecordTotalCount"@, DataRecordType::UnsignedInt)),
        44u16 => Some(("sourceIPv4Prefix"@, DataRecordType::Ipv4Addr)),
        45u16 => Some(("destinationIPv4Prefix"@, DataRecordType::Ipv4Addr)),
        46u16 => Some(("mplsTopLabelType"@, DataRecordType::UnsignedInt)),
        47u16 => Some(("mplsTopLabelIPv4Address"@, DataRecordType::Ipv4Addr)),
        52u16 => Some(("minimumTTL"@, DataRecordType::UnsignedInt)),
        53u16 => Some(("maximumTTL"@, DataRecordType::UnsignedInt)),
        54u16 => Some(("fragmentIdentification"@, DataRecordType::UnsignedInt)),
        55u16 => Some(("postIpClassOfService"@, DataRecordType::UnsignedInt)),
        56u16 => Some(("sourceMacAddress"@, DataRecordType::MacAddress)),
        57u16 => Some(("postDestinationMacAddress"@, DataRecordType::MacAddress)),
        58u16 => Some(("vlanId"@, DataRecordType::UnsignedInt)),
        59u16 => Some(("postVlanId"@, DataRecordType::UnsignedInt)),
        60u16 => Some(("ipVersion"@, DataRecordType::UnsignedInt)),
        61u16 => Some(("flowDirection"@, DataRecordType::UnsignedInt)),
        62u16 => Some(("ipNextHopIPv6Address"@, DataRecordType::Ipv6Addr)),
        63u16 => Some(("bgpNextHopIPv6Address"@, DataRecordType::Ipv6Addr)),
        64u16 => Some(("ipv6ExtensionHeaders"@, DataRecordType::UnsignedInt)),
        70u16 => Some(("mplsTopLabelStackSection"@, DataRecordType::Bytes)),
        71u16 => Some(("mplsLabelStackSection2"@, DataRecordType::Bytes)),
        72u16 => Some(("mplsLabelStackSection3"@, DataRecordType::Bytes)),
        73u16 => Some(("mplsLabelStackSection4"@, DataRecordType::Bytes)),
        74u16 => Some(("mplsLabelStackSection5"@, DataRecordType::Bytes)),
        75u16 => Some(("mplsLabelStackSection6"@, DataRecordType::Bytes)),
        76u16 => Some(("mplsLabelStackSection7"@, DataRecordType::Bytes)),
        77u16 => Some(("mplsLabelStackSection8"@, DataRecordType::Bytes)),
        78u16 => Some(("mplsLabelStackSection9"@, DataRecordType::Bytes)),
        79u16 => Some(("mplsLabelStackSection10"@, DataRecordType::Bytes)),
        80u16 => Some(("destinationMacAddress"@, DataRecordType::MacAddress)),
        81u16 => Some(("postSourceMacAddress"@, DataRecordType::MacAddress)),
        85u16 => Some(("octetTotalCount"@, DataRecordType::UnsignedInt)),
        86u16 => Some(("packetTotalCount"@, DataRecordType::UnsignedInt)),
        88u16 => Some(("fragmentOffset"@, DataRecordType::UnsignedInt)),
        90u16 => Some(("mplsVpnRouteDistinguisher"@, DataRecordType::Bytes)),
        128u16 => Some(("bgpNextAdjacentAsNumber"@, DataRecordType::UnsignedInt)),
        129u16 => Some(("bgpPrevAdjacentAsNumber"@, DataRecordType::UnsignedInt)),
        130u16 => Some(("exporterIPv4Address"@, DataRecordType::Ipv4Addr)),
        131u16 => Some(("exporterIPv6Address"@, DataRecordType::Ipv6Addr)),
        132u16 => Some(("droppedOctetDeltaCount"@, DataRecordType::UnsignedInt)),
        133u16 => Some(("droppedPacketDeltaCount"@, DataRecordType::UnsignedInt)),
        134u16 => Some(("droppedOctetTotalCount"@, DataRecordType::UnsignedInt)),
        135u16 => Some(("droppedPacketTotalCount"@, DataRecordType::UnsignedInt)),
        136u16 => Some(("flowEndReason"@, DataRecordType::UnsignedInt)),
        137u16 => Some(("commonPropertiesId"@, DataRecordType::UnsignedInt)),
        138u16 => Some(("observationPointId"@, DataRecordType::UnsignedInt)),
        139u16 => Some(("icmpTypeCodeIPv6"@, DataRecordType::UnsignedInt)),
        140u16 => Some(("mplsTopLabelIPv6Address"@, DataRecordType::Ipv6Addr)),
        141u16 => Some(("lineCardId"@, DataRecordType::UnsignedInt)),
        142u16 => Some(("portId"@, DataRecordType::UnsignedInt)),
        143u16 => Some(("meteringProcessId"@, DataRecordType::UnsignedInt)),
        144u16 => Some(("exportingProcessId"@, DataRecordType::UnsignedInt)),
        145u16 => Some(("templateId"@, DataRecordType::UnsignedInt)),
        146u16 => Some(("wlanChannelId"@, DataRecordType::UnsignedInt)),
        147u16 => Some(("wlanSSID"@, DataRecordType::String)),
        148u16 => Some(("flowId"@, DataRecordType::UnsignedInt)),
        149u16 => Some(("observationDomainId"@, DataRecordType::UnsignedInt)),
        150u16 => Some(("flowStartSeconds"@, DataRecordType::DateTimeSeconds)),
        151u16 => Some(("flowEndSeconds"@, DataRecordType::DateTimeSeconds)),
        152u16 => Some(("flowStartMilliseconds"@, DataRecordType::DateTimeMilliseconds)),
        153u16 => Some(("flowEndMilliseconds"@, DataRecordType::DateTimeMilliseconds)),
        154u16 => Some(("flowStartMicroseconds"@, DataRecordType::DateTimeMicroseconds)),
        155u16 => Some(("flowEndMicroseconds"@, DataRecordType::DateTimeMicroseconds)),
        156u16 => Some(("flowStartNanoseconds"@, DataRecordType::DateTimeNanoseconds)),
        157u16 => Some(("flowEndNanoseconds"@, DataRecordType::DateTimeNanoseconds)),
        158u16 => Some(("flowStartDeltaMicroseconds"@, DataRecordType::UnsignedInt)),
        159u16 => Some(("flowEndDeltaMicroseconds"@, DataRecordType::UnsignedInt)),
        160u16 => Some(("systemInitTimeMilliseconds"@, DataRecordType::DateTimeMilliseconds)),
        161u16 => Some(("flowDurationMilliseconds"@, DataRecordType::UnsignedInt)),
        162u16 => Some(("flowDurationMicroseconds"@, DataRecordType::UnsignedInt)),
        163u16 => Some(("observedFlowTotalCount"@, DataRecordType::UnsignedInt)),
        164u16 => Some(("ignoredPacketTotalCount"@, DataRecordType::UnsignedInt)),
        165u16 => Some(("ignoredOctetTotalCount"@, DataRecordType::UnsignedInt)),
        166u16 => Some(("notSentFlowTotalCount"@, DataRecordType::UnsignedInt)),
        167u16 => Some(("notSentPacketTotalCount"@, DataRecordType::UnsignedInt)),
        168u16 => Some(("notSentOctetTotalCount"@, DataRecordType::UnsignedInt)),
        169u16 => Some(("destinationIPv6Prefix"@, DataRecordType::Ipv6Addr)),
        170u16 => Some(("sourceIPv6Prefix"@, DataRecordType::Ipv6Addr)),
        171u16 => Some(("postOctetTotalCount"@, DataRecordType::UnsignedInt)),
        172u16 => Some(("postPacketTotalCount"@, DataRecordType::UnsignedInt)),
        173u16 => Some(("flowKeyIndicator"@, DataRecordType::UnsignedInt)),
        174u16 => Some(("postMCastPacketTotalCount"@, DataRecordType::UnsignedInt)),
        175u16 => Some(("postMCastOctetTotalCount"@, DataRecordType::UnsignedInt)),
        176u16 => Some(("icmpTypeIPv4"@, DataRecordType::UnsignedInt)),
        177u16 => Some(("icmpCodeIPv4"@, DataRecordType::UnsignedInt)),
        178u16 => Some(("icmpTypeIPv6"@, DataRecordType::UnsignedInt)),
        179u16 => Some(("icmpCodeIPv6"@, DataRecordType::UnsignedInt)),
        180u16 => Some(("udpSourcePort"@, DataRecordType::UnsignedInt)),
        181u16 => Some(("udpDestinationPort"@, DataRecordType::UnsignedInt)),
        182u16 => Some(("tcpSourcePort"@, DataRecordType::UnsignedInt)),
        183u16 => Some(("tcpDestinationPort"@, DataRecordType::UnsignedInt)),
        184u16 => Some(("tcpSequenceNumber"@, DataRecordType::UnsignedInt)),
        185u16 => Some(("tcpAcknowledgementNumber"@, DataRecordType::UnsignedInt)),
        186u16 => Some(("tcpWindowSize"@, DataRecordType::UnsignedInt)),
        187u16 => Some(("tcpUrgentPointer"@, DataRecordType::UnsignedInt)),
        188u16 => Some(("tcpHeaderLength"@, DataRecordType::UnsignedInt)),
        189u16 => Some(("ipHeaderLength"@, DataRecordType::UnsignedInt)),
        190u16 => Some(("totalLengthIPv4"@, DataRecordType::UnsignedInt)),
        191u16 => Some(("payloadLengthIPv6"@, DataRecordType::UnsignedInt)),
        192u16 => Some(("ipTTL"@, DataRecordType::UnsignedInt)),
        193u16 => Some(("nextHeaderIPv6"@, DataRecordType::UnsignedInt)),
        194u16 => Some(("mplsPayloadLength"@, DataRecordType::UnsignedInt)),
        195u16 => Some(("ipDiffServCodePoint"@, DataRecordType::UnsignedInt)),
        196u16 => Some(("ipPrecedence"@, DataRecordType::UnsignedInt)),
        197u16 => Some(("fragmentFlags"@, DataRecordType::UnsignedInt)),
        198u16 => Some(("octetDeltaSumOfSquares"@, DataRecordType::UnsignedInt)),
        199u16 => Some(("octetTotalSumOfSquares"@, DataRecordType::UnsignedInt)),
        200u16 => Some(("mplsTopLabelTTL"@, DataRecordType::UnsignedInt)),
        201u16 => Some(("mplsLabelStackLength"@, DataRecordType::UnsignedInt)),
        202u16 => Some(("mplsLabelStackDepth"@, DataRecordType::UnsignedInt)),
        203u16 => Some(("mplsTopLabelExp"@, DataRecordType::UnsignedInt)),
        204u16 => Some(("ipPayloadLength"@, DataRecordType::UnsignedInt)),
        205u16 => Some(("udpMessageLength"@, DataRecordType::UnsignedInt)),
        206u16 => Some(("isMulticast"@, DataRecordType::UnsignedInt)),
        207u16 => Some(("ipv4IHL"@, DataRecordType::UnsignedInt)),
        208u16 => Some(("ipv4Options"@, DataRecordType::UnsignedInt)),
        209u16 => Some(("tcpOptions"@, DataRecordType::UnsignedInt)),
        210u16 => Some(("paddingOctets"@, DataRecordType::Bytes)),
        211u16 => Some(("collectorIPv4Address"@, DataRecordType::Ipv4Addr)),
        212u16 => Some(("collectorIPv6Address"@, DataRecordType::Ipv6Addr)),
        213u16 => Some(("exportInterface"@, DataRecordType::UnsignedInt)),
        214u16 => Some(("exportProtocolVersion"@, DataRecordType::UnsignedInt)),
        215u16 => Some(("exportTransportProtocol"@, DataRecordType::UnsignedInt)),
        216u16 => Some(("collectorTransportPort"@, DataRecordType::UnsignedInt)),
        217u16 => Some(("exporterTransportPort"@, DataRecordType::UnsignedInt)),
        218u16 => Some(("tcpSynTotalCount"@, DataRecordType::UnsignedInt)),
        219u16 => Some(("tcpFinTotalCount"@, DataRecordType::UnsignedInt)),
        220u16 => Some(("tcpRstTotalCount"@, DataRecordType::UnsignedInt)),
        221u16 => Some(("tcpPshTotalCount"@, DataRecordType::UnsignedInt)),
        222u16 => Some(("tcpAckTotalCount"@, DataRecordType::UnsignedInt)),
        223u16 => Some(("tcpUrgTotalCount"@, DataRecordType::UnsignedInt)),
        224u16 => Some(("ipTotalLength"@, DataRecordType::UnsignedInt)),
        237u16 => Some(("postMplsTopLabelExp"@, DataRecordType::UnsignedInt)),
        238u16 => Some(("tcpWindowScale"@, DataRecordType::UnsignedInt)),
        _ => None,
    }
}

/// The IANA registry entry for element `id` under enterprise number 0.
pub fn iana_entry(id: u16) -> (r: Option<(String, DataRecordType)>)
    ensures
        match r {
            Some((name, ty)) => spec_iana_entry(id) == Some((name@, ty)),
            None => spec_iana_entry(id) is None,
        },
{
    match id {
        1u16 => Some(("octetDeltaCount".to_owned(), DataRecordType::UnsignedInt)),
        2u16 => Some(("packetDeltaCount".to_owned(), DataRecordType::UnsignedInt)),
        4u16 => Some(("protocolIdentifier".to_owned(), DataRecordType::UnsignedInt)),
        5u16 => Some(("ipClassOfService".to_owned(), DataRecordType::UnsignedInt)),
        6u16 => Some(("tcpControlBits".to_owned(), DataRecordType::UnsignedInt)),
        7u16 => Some(("sourceTransportPort".to_owned(), DataRecordType::UnsignedInt)),
        8u16 => Some(("sourceIPv4Address".to_owned(), DataRecordType::Ipv4Addr)),
        9u16 => Some(("sourceIPv4PrefixLength".to_owned(), DataRecordType::UnsignedInt)),
        10u16 => Some(("ingressInterface".to_owned(), DataRecordType::UnsignedInt)),
        11u16 => Some(("destinationTransportPort".to_owned(), DataRecordType::UnsignedInt)),
        12u16 => Some(("destinationIPv4Address".to_owned(), DataRecordType::Ipv4Addr)),
        13u16 => Some(("destinationIPv4PrefixLength".to_owned(), DataRecordType::UnsignedInt)),
        14u16 => Some(("egressInterface".to_owned(), DataRecordType::UnsignedInt)),
        15u16 => Some(("ipNextHopIPv4Address".to_owned(), DataRecordType::Ipv4Addr)),
        16u16 => Some(("bgpSourceAsNumber".to_owned(), DataRecordType::UnsignedInt)),
        17u16 => Some(("bgpDestinationAsNumber".to_owned(), DataRecordType::UnsignedInt)),
        18u16 => Some(("bgpNextHopIPv4Address".to_owned(), DataRecordType::Ipv4Addr)),
        19u16 => Some(("postMCastPacketDeltaCount".to_owned(), DataRecordType::UnsignedInt)),
        20u16 => Some(("postMCastOctetDeltaCount".to_owned(), DataRecordType::UnsignedInt)),
        21u16 => Some(("flowEndSysUpTime".to_owned(), DataRecordType::UnsignedInt)),
        22u16 => Some(("flowStartSysUpTime".to_owned(), DataRecordType::UnsignedInt)),
        23u16 => Some(("postOctetDeltaCount".to_owned(), DataRecordType::UnsignedInt)),
        24u16 => Some(("postPacketDeltaCount".to_owned(), DataRecordType::UnsignedInt)),
        25u16 => Some(("minimumIpTotalLength".to_owned(), DataRecordType::UnsignedInt)),
        26u16 => Some(("maximumIpTotalLength".to_owned(), DataRecordType::UnsignedInt)),
        27u16 => Some(("sourceIPv6Address".to_owned(), DataRecordType::Ipv6Addr)),
        28u16 => Some(("destinationIPv6Address".to_owned(), DataRecordType::Ipv6Addr)),
        29u16 => Some(("sourceIPv6PrefixLength".to_owned(), DataRecordType::UnsignedInt)),
        30u16 => Some(("destinationIPv6PrefixLength".to_owned(), DataRecordType::UnsignedInt)),
        31u16 => Some(("flowLabelIPv6".to_owned(), DataRecordType::UnsignedInt)),
        32u16 => Some(("icmpTypeCodeIPv4".to_owned(), DataRecordType::UnsignedInt)),
        33u16 => Some(("igmpType".to_owned(), DataRecordType::UnsignedInt)),
        36u16 => Some(("flowActiveTimeout".to_owned(), DataRecordType::UnsignedInt)),
        37u16 => Some(("flowIdleTimeout".to_owned(), DataRecordType::UnsignedInt)),
        40u16 => Some(("exportedOctetTotalCount".to_owned(), DataRecordType::UnsignedInt)),
        41u16 => Some(("exportedMessageTotalCount".to_owned(), DataRecordType::UnsignedInt)),
        42u16 => Some(("exportedFlowRecordTotalCount".to_owned(), DataRecordType::UnsignedInt)),
        44u16 => Some(("sourceIPv4Prefix".to_owned(), DataRecordType::Ipv4Addr)),
        45u16 => Some(("destinationIPv4Prefix".to_owned(), DataRecordType::Ipv4Addr)),
        46u16 => Some(("mplsTopLabelType".to_owned(), DataRecordType::UnsignedInt)),
        47u16 => Some(("mplsTopLabelIPv4Address".to_owned(), DataRecordType::Ipv4Addr)),
        52u16 => Some(("minimumTTL".to_owned(), DataRecordType::UnsignedInt)),
        53u16 => Some(("maximumTTL".to_owned(), DataRecordType::UnsignedInt)),
        54u16 => Some(("fragmentIdentification".to_owned(), DataRecordType::UnsignedInt)),
        55u16 => Some(("postIpClassOfService".to_owned(), DataRecordType::UnsignedInt)),
        56u16 => Some(("sourceMacAddress".to_owned(), DataRecordType::MacAddress)),
        57u16 => Some(("postDestinationMacAddress".to_owned(), DataRecordType::MacAddress)),
        58u16 => Some(("vlanId".to_owned(), DataRecordType::UnsignedInt)),
        59u16 => Some(("postVlanId".to_owned(), DataRecordType::UnsignedInt)),
        60u16 => Some(("ipVersion".to_owned(), DataRecordType::UnsignedInt)),
        61u16 => Some(("flowDirection".to_owned(), DataRecordType::UnsignedInt)),
        62u16 => Some(("ipNextHopIPv6Address".to_owned(), DataRecordType::Ipv6Addr)),
        63u16 => Some(("bgpNextHopIPv6Address".to_owned(), DataRecordType::Ipv6Addr)),
        64u16 => Some(("ipv6ExtensionHeaders".to_owned(), DataRecordType::UnsignedInt)),
        70u16 => Some(("mplsTopLabelStackSection".to_owned(), DataRecordType::Bytes)),
        71u16 => Some(("mplsLabelStackSection2".to_owned(), DataRecordType::Bytes)),
        72u16 => Some(("mplsLabelStackSection3".to_owned(), DataRecordType::Bytes)),
        73u16 => Some(("mplsLabelStackSection4".to_owned(), DataRecordType::Bytes)),
        74u16 => Some(("mplsLabelStackSection5".to_owned(), DataRecordType::Bytes)),
        75u16 => Some(("mplsLabelStackSection6".to_owned(), DataRecordType::Bytes)),
        76u16 => Some(("mplsLabelStackSection7".to_owned(), DataRecordType::Bytes)),
        77u16 => Some(("mplsLabelStackSection8".to_owned(), DataRecordType::Bytes)),
        78u16 => Some(("mplsLabelStackSection9".to_owned(), DataRecordType::Bytes)),
        79u16 => Some(("mplsLabelStackSection10".to_owned(), DataRecordType::Bytes)),
        80u16 => Some(("destinationMacAddress".to_owned(), DataRecordType::MacAddress)),
        81u16 => Some(("postSourceMacAddress".to_owned(), DataRecordType::MacAddress)),
        85u16 => Some(("octetTotalCount".to_owned(), DataRecordType::UnsignedInt)),
        86u16 => Some(("packetTotalCount".to_owned(), DataRecordType::UnsignedInt)),
        88u16 => Some(("fragmentOffset".to_owned(), DataRecordType::UnsignedInt)),
        90u16 => Some(("mplsVpnRouteDistinguisher".to_owned(), DataRecordType::Bytes)),
        128u16 => Some(("bgpNextAdjacentAsNumber".to_owned(), DataRecordType::UnsignedInt)),
        129u16 => Some(("bgpPrevAdjacentAsNumber".to_owned(), DataRecordType::UnsignedInt)),
        130u16 => Some(("exporterIPv4Address".to_owned(), DataRecordType::Ipv4Addr)),
        131u16 => Some(("exporterIPv6Address".to_owned(), DataRecordType::Ipv6Addr)),
        132u16 => Some(("droppedOctetDeltaCount".to_owned(), DataRecordType::UnsignedInt)),
        133u16 => Some(("droppedPacketDeltaCount".to_owned(), DataRecordType::UnsignedInt)),
        134u16 => Some(("droppedOctetTotalCount".to_owned(), DataRecordType::UnsignedInt)),
        135u16 => Some(("droppedPacketTotalCount".to_owned(), DataRecordType::UnsignedInt)),
        136u16 => Some(("flowEndReason".to_owned(), DataRecordType::UnsignedInt)),
        137u16 => Some(("commonPropertiesId".to_owned(), DataRecordType::UnsignedInt)),
        138u16 => Some(("observationPointId".to_owned(), DataRecordType::UnsignedInt)),
        139u16 => Some(("icmpTypeCodeIPv6".to_owned(), DataRecordType::UnsignedInt)),
        140u16 => Some(("mplsTopLabelIPv6Address".to_owned(), DataRecordType::Ipv6Addr)),
        141u16 => Some(("lineCardId".to_owned(), DataRecordType::UnsignedInt)),
        142u16 => Some(("portId".to_owned(), DataRecordType::UnsignedInt)),
        143u16 => Some(("meteringProcessId".to_owned(), DataRecordType::UnsignedInt)),
        144u16 => Some(("exportingProcessId".to_owned(), DataRecordType::UnsignedInt)),
        145u16 => Some(("templateId".to_owned(), DataRecordType::UnsignedInt)),
        146u16 => Some(("wlanChannelId".to_owned(), DataRecordType::UnsignedInt)),
        147u16 => Some(("wlanSSID".to_owned(), DataRecordType::String)),
        148u16 => Some(("flowId".to_owned(), DataRecordType::UnsignedInt)),
        149u16 => Some(("observationDomainId".to_owned(), DataRecordType::UnsignedInt)),
        150u16 => Some(("flowStartSeconds".to_owned(), DataRecordType::DateTimeSeconds)),
        151u16 => Some(("flowEndSeconds".to_owned(), DataRecordType::DateTimeSeconds)),
        152u16 => Some(("flowStartMilliseconds".to_owned(), DataRecordType::DateTimeMilliseconds)),
        153u16 => Some(("flowEndMilliseconds".to_owned(), DataRecordType::DateTimeMilliseconds)),
        154u16 => Some(("flowStartMicroseconds".to_owned(), DataRecordType::DateTimeMicroseconds)),
        155u16 => Some(("flowEndMicroseconds".to_owned(), DataRecordType::DateTimeMicroseconds)),
        156u16 => Some(("flowStartNanoseconds".to_owned(), DataRecordType::DateTimeNanoseconds)),
        157u16 => Some(("flowEndNanoseconds".to_owned(), DataRecordType::DateTimeNanoseconds)),
        158u16 => Some(("flowStartDeltaMicroseconds".to_owned(), DataRecordType::UnsignedInt)),
        159u16 => Some(("flowEndDeltaMicroseconds".to_owned(), DataRecordType::UnsignedInt)),
        160u16 => Some(("systemInitTimeMilliseconds".to_owned(), DataRecordType::DateTimeMilliseconds)),
        161u16 => Some(("flowDurationMilliseconds".to_owned(), DataRecordType::UnsignedInt)),
        162u16 => Some(("flowDurationMicroseconds".to_owned(), DataRecordType::UnsignedInt)),
        163u16 => Some(("observedFlowTotalCount".to_owned(), DataRecordType::UnsignedInt)),
        164u16 => Some(("ignoredPacketTotalCount".to_owned(), DataRecordType::UnsignedInt)),
        165u16 => Some(("ignoredOctetTotalCount".to_owned(), DataRecordType::UnsignedInt)),
        166u16 => Some(("notSentFlowTotalCount".to_owned(), DataRecordType::UnsignedInt)),
        167u16 => Some(("notSentPacketTotalCount".to_owned(), DataRecordType::UnsignedInt)),
        168u16 => Some(("notSentOctetTotalCount".to_owned(), DataRecordType::UnsignedInt)),
        169u16 => Some(("destinationIPv6Prefix".to_owned(), DataRecordType::Ipv6Addr)),
        170u16 => Some(("sourceIPv6Prefix".to_owned(), DataRecordType::Ipv6Addr)),
        171u16 => Some(("postOctetTotalCount".to_owned(), DataRecordType::UnsignedInt)),
        172u16 => Some(("postPacketTotalCount".to_owned(), DataRecordType::UnsignedInt)),
        173u16 => Some(("flowKeyIndicator".to_owned(), DataRecordType::UnsignedInt)),
        174u16 => Some(("postMCastPacketTotalCount".to_owned(), DataRecordType::UnsignedInt)),
        175u16 => Some(("postMCastOctetTotalCount".to_owned(), DataRecordType::UnsignedInt)),
        176u16 => Some(("icmpTypeIPv4".to_owned(), DataRecordType::UnsignedInt)),
        177u16 => Some(("icmpCodeIPv4".to_owned(), DataRecordType::UnsignedInt)),
        178u16 => Some(("icmpTypeIPv6".to_owned(), DataRecordType::UnsignedInt)),
        179u16 => Some(("icmpCodeIPv6".to_owned(), DataRecordType::UnsignedInt)),
        180u16 => Some(("udpSourcePort".to_owned(), DataRecordType::UnsignedInt)),
        181u16 => Some(("udpDestinationPort".to_owned(), DataRecordType::UnsignedInt)),
        182u16 => Some(("tcpSourcePort".to_owned(), DataRecordType::UnsignedInt)),
        183u16 => Some(("tcpDestinationPort".to_owned(), DataRecordType::UnsignedInt)),
        184u16 => Some(("tcpSequenceNumber".to_owned(), DataRecordType::UnsignedInt)),
        185u16 => Some(("tcpAcknowledgementNumber".to_owned(), DataRecordType::UnsignedInt)),
        186u16 => Some(("tcpWindowSize".to_owned(), DataRecordType::UnsignedInt)),
        187u16 => Some(("tcpUrgentPointer".to_owned(), DataRecordType::UnsignedInt)),
        188u16 => Some(("tcpHeaderLength".to_owned(), DataRecordType::UnsignedInt)),
        189u16 => Some(("ipHeaderLength".to_owned(), DataRecordType::UnsignedInt)),
        190u16 => Some(("totalLengthIPv4".to_owned(), DataRecordType::UnsignedInt)),
        191u16 => Some(("payloadLengthIPv6".to_owned(), DataRecordType::UnsignedInt)),
        192u16 => Some(("ipTTL".to_owned(), DataRecordType::UnsignedInt)),
        193u16 => Some(("nextHeaderIPv6".to_owned(), DataRecordType::UnsignedInt)),
        194u16 => Some(("mplsPayloadLength".to_owned(), DataRecordType::UnsignedInt)),
        195u16 => Some(("ipDiffServCodePoint".to_owned(), DataRecordType::UnsignedInt)),
        196u16 => Some(("ipPrecedence".to_owned(), DataRecordType::UnsignedInt)),
        197u16 => Some(("fragmentFlags".to_owned(), DataRecordType::UnsignedInt)),
        198u16 => Some(("octetDeltaSumOfSquares".to_owned(), DataRecordType::UnsignedInt)),
        199u16 => Some(("octetTotalSumOfSquares".to_owned(), DataRecordType::UnsignedInt)),
        200u16 => Some(("mplsTopLabelTTL".to_owned(), DataRecordType::UnsignedInt)),
        201u16 => Some(("mplsLabelStackLength".to_owned(), DataRecordType::UnsignedInt)),
        202u16 => Some(("mplsLabelStackDepth".to_owned(), DataRecordType::UnsignedInt)),
        203u16 => Some(("mplsTopLabelExp".to_owned(), DataRecordType::UnsignedInt)),
        204u16 => Some(("ipPayloadLength".to_owned(), DataRecordType::UnsignedInt)),
        205u16 => Some(("udpMessageLength".to_owned(), DataRecordType::UnsignedInt)),
        206u16 => Some(("isMulticast".to_owned(), DataRecordType::UnsignedInt)),
        207u16 => Some(("ipv4IHL".to_owned(), DataRecordType::UnsignedInt)),
        208u16 => Some(("ipv4Options".to_owned(), DataRecordType::UnsignedInt)),
        209u16 => Some(("tcpOptions".to_owned(), DataRecordType::UnsignedInt)),
        210u16 => Some(("paddingOctets".to_owned(), DataRecordType::Bytes)),
        211u16 => Some(("collectorIPv4Address".to_owned(), DataRecordType::Ipv4Addr)),
        212u16 => Some(("collectorIPv6Address".to_owned(), DataRecordType::Ipv6Addr)),
        213u16 => Some(("exportInterface".to_owned(), DataRecordType::UnsignedInt)),
        214u16 => Some(("exportProtocolVersion".to_owned(), DataRecordType::UnsignedInt)),
        215u16 => Some(("exportTransportProtocol".to_owned(), DataRecordType::UnsignedInt)),
        216u16 => Some(("collectorTransportPort".to_owned(), DataRecordType::UnsignedInt)),
        217u16 => Some(("exporterTransportPort".to_owned(), DataRecordType::UnsignedInt)),
        218u16 => Some(("tcpSynTotalCount".to_owned(), DataRecordType::UnsignedInt)),
        219u16 => Some(("tcpFinTotalCount".to_owned(), DataRecordType::UnsignedInt)),
        220u16 => Some(("tcpRstTotalCount".to_owned(), DataRecordType::UnsignedInt)),
        221u16 => Some(("tcpPshTotalCount".to_owned(), DataRecordType::UnsignedInt)),
        222u16 => Some(("tcpAckTotalCount".to_owned(), DataRecordType::UnsignedInt)),
        223u16 => Some(("tcpUrgTotalCount".to_owned(), DataRecordType::UnsignedInt)),
        224u16 => Some(("ipTotalLength".to_owned(), DataRecordType::UnsignedInt)),
        237u16 => Some(("postMplsTopLabelExp".to_owned(), DataRecordType::UnsignedInt)),
        238u16 => Some(("tcpWindowScale".to_owned(), DataRecordType::UnsignedInt)),
        _ => None,
    }
}

/// View of [`FormatterEntry`].
pub struct FormatterEntryV {
    pub enterprise_number: u32,
    pub information_element_identifier: u16,
    pub name: Seq<char>,
    pub ty: DataRecordType,
}

/// One extension entry of a formatter.
#[derive(Debug)]
pub struct FormatterEntry {
    pub enterprise_number: u32,
    pub information_element_identifier: u16,
    pub name: String,
    pub ty: DataRecordType,
}

impl View for FormatterEntry {
    type V = FormatterEntryV;

    open spec fn view(&self) -> FormatterEntryV {
        FormatterEntryV {
            enterprise_number: self.enterprise_number,
            information_element_identifier: self.information_element_identifier,
            name: self.name@,
            ty: self.ty,
        }
    }
}

/// The last extension entry for the pair, if any: later entries override
/// earlier ones.
pub open spec fn spec_extra_get(
    entries: Seq<FormatterEntryV>,
    enterprise_number: u32,
    information_element_identifier: u16,
) -> Option<(Seq<char>, DataRecordType)>
    decreases entries.len(),
{
    if entries.len() == 0 {
        None
    } else if entries.last().enterprise_number == enterprise_number
        && entries.last().information_element_identifier == information_element_identifier {
        Some((entries.last().name, entries.last().ty))
    } else {
        spec_extra_get(entries.drop_last(), enterprise_number, information_element_identifier)
    }
}

/// What a formatter resolves a pair to: its own extension entries first
/// (newest wins), then the IANA table for enterprise number 0.
pub open spec fn spec_formatter_get(
    entries: Seq<FormatterEntryV>,
    enterprise_number: u32,
    information_element_identifier: u16,
) -> Option<(Seq<char>, DataRecordType)> {
    match spec_extra_get(entries, enterprise_number, information_element_identifier) {
        Some(e) => Some(e),
        None => if enterprise_number == 0 {
            spec_iana_entry(information_element_identifier)
        } else {
            None
        },
    }
}

/// Resolves `(enterprise_number, information_element_identifier)` pairs to
/// an element name and abstract data type.  Its view is the sequence of
/// extension entries; resolution falls back to the IANA table.
#[derive(Debug)]
pub struct Formatter {
    pub extensions: Vec<FormatterEntry>,
}

impl View for Formatter {
    type V = Seq<FormatterEntryV>;

    open spec fn view(&self) -> Seq<FormatterEntryV> {
        crate::types::seq_views(self.extensions@)
    }
}

impl Formatter {
    /// The name and type filed under the pair, if any.
    pub open spec fn spec_get(
        &self,
        enterprise_number: u32,
        information_element_identifier: u16,
    ) -> Option<(Seq<char>, DataRecordType)> {
        spec_formatter_get(self@, enterprise_number, information_element_identifier)
    }

    /// A formatter holding exactly the IANA table.
    pub fn new() -> (r: Formatter)
        ensures
            r@ == Seq::<FormatterEntryV>::empty(),
    {
        let f = Formatter { extensions: Vec::new() };
        proof {
            assert(f@ =~= Seq::<FormatterEntryV>::empty());
        }
        f
    }

    /// File `name` and `ty` under the pair, overriding any earlier entry.
    pub fn insert(
        &mut self,
        enterprise_number: u32,
        information_element_identifier: u16,
        name: String,
        ty: DataRecordType,
    )
        ensures
            final(self)@ == old(self)@.push(FormatterEntryV {
                enterprise_number,
                information_element_identifier,
                name: name@,
                ty,
            }),
    {
        let ghost before = self@;
        let entry = FormatterEntry {
            enterprise_number,
            information_element_identifier,
            name,
            ty,
        };
        let ghost entry_v = entry@;
        self.extensions.push(entry);
        proof {
            assert(self@ =~= before.push(entry_v));
        }
    }

    /// File every entry of `entries`, in order.
    pub fn extend(&mut self, entries: Vec<FormatterEntry>)
        ensures
            final(self)@ == old(self)@ + crate::types::seq_views(entries@),
    {
        let ghost before = self@;
        let ghost entries_v = crate::types::seq_views(entries@);
        let mut rest = entries;
        proof {
            assert(entries_v.subrange(0, 0) =~= Seq::<FormatterEntryV>::empty());
            assert(self@ =~= before + entries_v.subrange(0, 0));
        }
        while rest.len() > 0
            invariant
                rest@.len() <= entries_v.len(),
                forall|j: int|
                    0 <= j < rest@.len() ==> #[trigger] rest@[j]@ == entries_v[entries_v.len()
                        - rest@.len() + j],
                self@ =~= before + entries_v.subrange(
                    0,
                    entries_v.len() - rest@.len(),
                ),
            decreases rest@.len(),
        {
            let ghost i = entries_v.len() - rest@.len();
            let ghost r0 = rest@;
            let e = rest.remove(0);
            proof {
                assert(r0[0]@ == entries_v[i as int]);
            }
            self.insert(e.enterprise_number, e.information_element_identifier, e.name, e.ty);
            proof {
                assert(self@ =~= before + entries_v.subrange(0, i + 1));
            }
        }
        proof {
            assert(entries_v.subrange(0, entries_v.len() as int) =~= entries_v);
        }
    }

    /// Resolve a pair: extension entries first, newest first, then the
    /// IANA table for enterprise number 0.
    pub fn get(
        &self,
        enterprise_number: u32,
        information_element_identifier: u16,
    ) -> (r: Option<(String, DataRecordType)>)
        ensures
            match r {
                Some((name, ty)) => self.spec_get(enterprise_number, information_element_identifier)
                    == Some((name@, ty)),
                None => self.spec_get(enterprise_number, information_element_identifier) is None,
            },
    {
        let n = self.extensions.len();
        let mut i: usize = n;
        proof {
            assert(self@.subrange(0, n as int) =~= self@);
        }
        while i > 0
            invariant
                i <= n,
                n == self@.len(),
                spec_extra_get(self@, enterprise_number, information_element_identifier)
                    == spec_extra_get(
                    self@.subrange(0, i as int),
                    enterprise_number,
                    information_element_identifier,
                ),
            decreases i,
        {
            i = i - 1;
            let e = &self.extensions[i];
            proof {
                assert(self@.subrange(0, i + 1).drop_last() =~= self@.subrange(0, i as int));
                assert(self@.subrange(0, i + 1).last() == self@[i as int]);
            }
            if e.enterprise_number == enterprise_number
                && e.information_element_identifier == information_element_identifier {
                return Some((e.name.clone(), e.ty));
            }
        }
        proof {
            assert(self@.subrange(0, 0) =~= Seq::<FormatterEntryV>::empty());
        }
        if enterprise_number == 0 {
            iana_entry(information_element_identifier)
        } else {
            None
        }
    }
}

impl Default for Formatter {
    /// A formatter holding exactly the IANA table.
    fn default() -> (r: Formatter)
        ensures
            r@ == Seq::<FormatterEntryV>::empty(),
    {
        Formatter::new()
    }
}

/// The default formatter: exactly the IANA table, with no extensions.
pub fn get_default_formatter() -> (r: Formatter)
    ensures
        r@ == Seq::<FormatterEntryV>::empty(),
{
    Formatter::new()
}

} // verus!
