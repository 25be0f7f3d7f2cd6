use print_raster::bytes::RasterByteOrder;
use print_raster::cups::{
    read_page_header_v1, write_page_header_v1, CupsAdvance, CupsColorOrder, CupsColorSpace,
    CupsCut, CupsImagingBoundingBox, CupsJog, CupsLeadingEdge, CupsMargins, CupsOrientation,
    CupsPageFactoryV2, CupsPageHeaderV1, CupsPageHeaderV2, CupsPageSize, CupsRasterError,
    CupsResolution, CupsSyncWord,
};
use print_raster::urf::{
    UrfColorSpace, UrfDuplex, UrfError, UrfHeader, UrfMediaPosition, UrfMediaType,
    UrfPageFactory, UrfPageHeader, UrfQuality,
};

fn sample_v1() -> CupsPageHeaderV1 {
    CupsPageHeaderV1 {
        media_class: "PwgRaster".to_string(),
        media_color: String::new(),
        media_type: "stationery".to_string(),
        output_type: String::new(),
        advance_distance: 0,
        advance_media: CupsAdvance::Never,
        collate: false,
        cut_media: CupsCut::AfterPage,
        duplex: true,
        resolution: CupsResolution { cross_feed: 300, feed: 300 },
        imaging_bbox: CupsImagingBoundingBox { left: 0, bottom: 0, right: 0, top: 0 },
        insert_sheet: false,
        jog: CupsJog::Never,
        leading_edge: CupsLeadingEdge::Top,
        margins: CupsMargins { left: 0, bottom: 0 },
        manual_feed: false,
        media_position: 0,
        media_weight: 0,
        mirror_print: false,
        negative_print: false,
        num_copies: 1,
        orientation: CupsOrientation::Portrait,
        output_face_up: false,
        page_size: CupsPageSize { width: 612, height: 792 },
        separations: false,
        tray_switch: false,
        tumble: true,
        width: 8,
        height: 8,
        cups_media_type: 0,
        bits_per_color: 8,
        bits_per_pixel: 24,
        bytes_per_line: 24,
        color_order: CupsColorOrder::Chunky,
        color_space: CupsColorSpace::sRGB,
        cups_compression: 0,
        cups_row_count: 0,
        cups_row_feed: 0,
        cups_row_step: 0,
    }
}

#[test]
fn sync_word_dispatch() {
    let cases = [
        ([0x52, 0x61, 0x53, 0x74], CupsSyncWord::V1BigEndian, RasterByteOrder::BigEndian),
        ([0x74, 0x53, 0x61, 0x52], CupsSyncWord::V1LittleEndian, RasterByteOrder::LittleEndian),
        ([0x52, 0x61, 0x53, 0x32], CupsSyncWord::V2BigEndian, RasterByteOrder::BigEndian),
        ([0x32, 0x53, 0x61, 0x52], CupsSyncWord::V2LittleEndian, RasterByteOrder::LittleEndian),
        ([0x52, 0x61, 0x53, 0x33], CupsSyncWord::V3BigEndian, RasterByteOrder::BigEndian),
        ([0x33, 0x53, 0x61, 0x52], CupsSyncWord::V3LittleEndian, RasterByteOrder::LittleEndian),
    ];
    for (bytes, word, order) in cases {
        assert_eq!(CupsSyncWord::from_bytes(bytes), Ok(word));
        assert_eq!(word.byte_order(), order);
        assert_eq!(word.to_bytes(), bytes);
    }
    assert_eq!(CupsSyncWord::from_bytes(*b"RaS4"), Err(CupsRasterError::InvalidSyncWord));
    assert_eq!(CupsSyncWord::from_bytes([0, 0, 0, 0]), Err(CupsRasterError::InvalidSyncWord));
}

#[test]
fn urf_file_header_bytes() {
    let h = UrfHeader { page_count: 2 };
    assert_eq!(h.to_bytes(), vec![0x55, 0x4E, 0x49, 0x52, 0x41, 0x53, 0x54, 0x00, 0, 0, 0, 2]);
    assert_eq!(UrfHeader::from_bytes(&h.to_bytes()), Ok(h));
    assert_eq!(UrfHeader::from_bytes(b"UNIRAST\x01\0\0\0\x02"), Err(UrfError::InvalidMagic));
}

#[test]
fn urf_page_header_round_trip() {
    let h = UrfPageHeader {
        bits_per_pixel: 24,
        color_space: UrfColorSpace::sRGB,
        duplex: UrfDuplex::LongSide,
        quality: UrfQuality::Normal,
        media_position: UrfMediaPosition::Tray3,
        media_type: UrfMediaType::Labels,
        width: 0x01020304,
        height: 1000,
        dot_per_inch: 300,
    };
    let bytes = h.to_bytes();
    assert_eq!(bytes.len(), 32);
    assert_eq!(&bytes[0..6], &[24, 1, 3, 4, 22, 5]);
    assert_eq!(&bytes[12..16], &[1, 2, 3, 4]);
    assert_eq!(UrfPageHeader::from_bytes(&bytes), Ok(h));
    let mut bad = bytes.clone();
    bad[2] = 0;
    assert_eq!(UrfPageHeader::from_bytes(&bad), Err(UrfError::UnknownDuplex));
    bad[1] = 7;
    assert_eq!(UrfPageHeader::from_bytes(&bad), Err(UrfError::UnknownColorSpace));
}

#[test]
fn urf_params() {
    let mut h = UrfPageHeader {
        bits_per_pixel: 24,
        color_space: UrfColorSpace::sGray,
        duplex: UrfDuplex::NoDuplex,
        quality: UrfQuality::Default,
        media_position: UrfMediaPosition::Auto,
        media_type: UrfMediaType::Auto,
        width: 10,
        height: 4,
        dot_per_inch: 300,
    };
    let p = UrfPageFactory::params(&h).unwrap();
    assert_eq!((p.chunk_size, p.bytes_per_line, p.num_bytes, p.fill_byte), (3, 30, 120, 0xFF));
    h.color_space = UrfColorSpace::CMYK;
    assert_eq!(UrfPageFactory::params(&h).unwrap().fill_byte, 0);
    h.width = u32::MAX;
    h.height = u32::MAX;
    assert_eq!(UrfPageFactory::params(&h).err(), Some(UrfError::DataTooLarge));
    assert_eq!(UrfColorSpace::CMYK.num_colors(), 4);
    assert_eq!(UrfColorSpace::Gray.num_colors(), 1);
}

#[test]
fn cups_v1_header_round_trip() {
    for order in [RasterByteOrder::BigEndian, RasterByteOrder::LittleEndian] {
        let h = sample_v1();
        let bytes = write_page_header_v1(order, &h).unwrap();
        assert_eq!(bytes.len(), 420);
        assert_eq!(read_page_header_v1(order, &bytes), Ok(h));
    }
    let bytes = write_page_header_v1(RasterByteOrder::BigEndian, &sample_v1()).unwrap();
    assert_eq!(&bytes[372..376], &[0, 0, 0, 8]);
    assert_eq!(&bytes[0..10], b"PwgRaster\0");
}

#[test]
fn cups_header_errors() {
    let mut h = sample_v1();
    h.media_type = "x".repeat(65);
    assert_eq!(write_page_header_v1(RasterByteOrder::BigEndian, &h), Err(CupsRasterError::StringTooLong));
    let mut bytes = write_page_header_v1(RasterByteOrder::BigEndian, &sample_v1()).unwrap();
    bytes[403] = 99;
    assert_eq!(read_page_header_v1(RasterByteOrder::BigEndian, &bytes), Err(CupsRasterError::UnknownColorSpace));
    let mut bytes = write_page_header_v1(RasterByteOrder::BigEndian, &sample_v1()).unwrap();
    bytes[395] = 25;
    assert_eq!(read_page_header_v1(RasterByteOrder::BigEndian, &bytes), Err(CupsRasterError::DataLayoutError));
    let mut bytes = write_page_header_v1(RasterByteOrder::BigEndian, &sample_v1()).unwrap();
    bytes[0] = 0xFF;
    assert_eq!(read_page_header_v1(RasterByteOrder::BigEndian, &bytes), Err(CupsRasterError::InvalidString));
}

#[test]
fn cups_params_and_colors() {
    let mut h = CupsPageHeaderV2::from_v1(sample_v1());
    assert_eq!(h.num_colors(), 3);
    let p = CupsPageFactoryV2::params(&h).unwrap();
    assert_eq!((p.chunk_size, p.bytes_per_line, p.num_bytes, p.fill_byte), (3, 24, 192, 0xFF));
    h.v1.color_order = CupsColorOrder::Banded;
    h.v1.color_space = CupsColorSpace::CMYK;
    h.v1.bits_per_color = 16;
    h.v1.bytes_per_line = 32;
    let p = CupsPageFactoryV2::params(&h).unwrap();
    assert_eq!((p.chunk_size, p.num_bytes, p.fill_byte), (2, 256, 0));
    h.v1.color_order = CupsColorOrder::Planar;
    assert_eq!(CupsPageFactoryV2::params(&h).unwrap().num_bytes, 256 * 4);
    h.num_colors = 2;
    assert_eq!(h.num_colors(), 2);
    h.v1.bytes_per_line = u32::MAX;
    h.v1.height = u32::MAX;
    assert_eq!(CupsPageFactoryV2::params(&h).err(), Some(CupsRasterError::DataTooLarge));
    h.v1.color_space = CupsColorSpace::KCMYcm;
    h.v1.bits_per_pixel = 4;
    assert_eq!(h.v1.num_colors(), 6);
    h.v1.color_space = CupsColorSpace::DeviceF;
    assert_eq!(h.v1.num_colors(), 15);
}

#[test]
fn cups_unknown_enum_fields() {
    let good = write_page_header_v1(RasterByteOrder::LittleEndian, &sample_v1()).unwrap();
    let cases = [
        (260, CupsRasterError::UnknownAdvanceMedia),
        (268, CupsRasterError::UnknownCutMedia),
        (304, CupsRasterError::UnknownJog),
        (308, CupsRasterError::UnknownLeadingEdge),
        (344, CupsRasterError::UnknownOrientation),
        (396, CupsRasterError::UnknownColorOrder),
        (400, CupsRasterError::UnknownColorSpace),
    ];
    for (offset, err) in cases {
        let mut bytes = good.clone();
        bytes[offset] = 0x40;
        assert_eq!(read_page_header_v1(RasterByteOrder::LittleEndian, &bytes), Err(err));
    }
    let mut bytes = good.clone();
    bytes[388] = 0x00;
    bytes[389] = 0x10;
    assert_eq!(read_page_header_v1(RasterByteOrder::LittleEndian, &bytes), Err(CupsRasterError::DataTooLarge));
}

#[test]
fn urf_unknown_enum_fields() {
    let h = UrfPageHeader {
        bits_per_pixel: 8,
        color_space: UrfColorSpace::Gray,
        duplex: UrfDuplex::ShortSide,
        quality: UrfQuality::High,
        media_position: UrfMediaPosition::Roll10,
        media_type: UrfMediaType::Other,
        width: 1,
        height: 1,
        dot_per_inch: 600,
    };
    let good = h.to_bytes();
    assert_eq!(&good[0..6], &[8, 4, 2, 5, 49, 13]);
    let cases = [
        (3, 1, UrfError::UnknownQuality),
        (4, 50, UrfError::UnknownMediaPosition),
        (5, 14, UrfError::UnknownMediaType),
    ];
    for (offset, value, err) in cases {
        let mut bytes = good.clone();
        bytes[offset] = value;
        assert_eq!(UrfPageHeader::from_bytes(&bytes), Err(err));
    }
}
