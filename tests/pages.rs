use print_raster::cups::{
    CupsAdvance, CupsColorOrder, CupsColorSpace, CupsCut, CupsImagingBoundingBox, CupsJog,
    CupsLeadingEdge, CupsMargins, CupsOrientation, CupsPageHeaderV1, CupsPageHeaderV2,
    CupsPageSize, CupsResolution, CupsSyncWord,
};
use print_raster::error::CodecError;
use print_raster::framing::{FrameStatus, HeaderReader};
use print_raster::reader::{CupsRasterUnifiedReader, PageEvent, UrfReader};
use print_raster::limits::Limits;
use print_raster::urf::{
    UrfColorSpace, UrfDuplex, UrfError, UrfHeader, UrfMediaPosition, UrfMediaType,
    UrfPageHeader, UrfQuality,
};
use print_raster::writer::{CupsRasterWriter, UrfWriter};

fn page(width: u32, height: u32) -> UrfPageHeader {
    UrfPageHeader {
        bits_per_pixel: 8,
        color_space: UrfColorSpace::sGray,
        duplex: UrfDuplex::NoDuplex,
        quality: UrfQuality::Normal,
        media_position: UrfMediaPosition::Auto,
        media_type: UrfMediaType::Auto,
        width,
        height,
        dot_per_inch: 300,
    }
}

fn pixels(n: usize, seed: u8) -> Vec<u8> {
    (0..n).map(|i| if (i / 3) % 4 == 0 { seed } else { (i as u8).wrapping_mul(seed) }).collect()
}

/// Writes pages through `UrfWriter`, offering at most `room` bytes of room per call.
fn write_urf(pages: &[(UrfPageHeader, Vec<u8>)], room: usize) -> Vec<u8> {
    let mut w = UrfWriter::new(UrfHeader { page_count: pages.len() as u32 });
    let mut out = Vec::new();
    for (h, data) in pages {
        while !w.finish(room, false, &mut out).unwrap() {}
        w.next_page(h).unwrap();
        let mut pos: usize = 0;
        while pos < data.len() {
            pos += w.write(&data[pos..], room, false, &mut out).unwrap().consumed;
        }
    }
    while !w.finish(room, false, &mut out).unwrap() {}
    out
}

/// Reads every page through `UrfReader`, handing it at most `step` bytes per call.
fn read_urf(file: &[u8], step: usize) -> Result<Vec<(UrfPageHeader, Vec<u8>)>, UrfError> {
    let mut r = UrfReader::new(Limits::no_limits());
    let mut pages: Vec<(UrfPageHeader, Vec<u8>)> = Vec::new();
    let mut pos: usize = 0;
    let mut scratch = Vec::new();
    loop {
        let end = pos.saturating_add(step).min(file.len());
        let eof = end == file.len();
        scratch.clear();
        match r.advance(&file[pos..end], eof, 4096, &mut scratch)? {
            PageEvent::Progress { consumed } | PageEvent::Pending { consumed } => pos += consumed,
            PageEvent::Page { consumed, header } => {
                pos += consumed;
                pages.push((header, Vec::new()));
            }
            PageEvent::Data { consumed, .. } => {
                pos += consumed;
                pages.last_mut().unwrap().1.extend_from_slice(&scratch);
            }
            PageEvent::End => return Ok(pages),
        }
    }
}

#[test]
fn urf_writer_empty_file() {
    let mut w = UrfWriter::new(UrfHeader { page_count: 2 });
    let mut out = Vec::new();
    assert_eq!(w.finish(1024, false, &mut out), Ok(true));
    assert_eq!(out, vec![0x55, 0x4E, 0x49, 0x52, 0x41, 0x53, 0x54, 0x00, 0x00, 0x00, 0x00, 0x02]);
}

#[test]
fn urf_round_trip_through_pages() {
    let pages = vec![(page(6, 4), pixels(24, 3)), (page(5, 2), vec![0x11; 10])];
    let file = write_urf(&pages, 1 << 20);
    assert_eq!(read_urf(&file, usize::MAX).unwrap(), pages);
    assert_eq!(read_urf(&file, 1).unwrap(), pages);
    assert_eq!(write_urf(&pages, 1), file);
}

#[test]
fn urf_reader_header_and_truncation() {
    let pages = vec![(page(6, 4), pixels(24, 5))];
    let file = write_urf(&pages, 1 << 20);
    let mut r = UrfReader::new(Limits::no_limits());
    let mut out = Vec::new();
    assert_eq!(r.header(), None);
    assert_eq!(r.advance(&file[..12], false, 64, &mut out), Ok(PageEvent::Progress { consumed: 12 }));
    assert_eq!(r.header(), Some(UrfHeader { page_count: 1 }));
    assert_eq!(read_urf(&file[..file.len() - 1], 7), Err(UrfError::Codec(CodecError::UnexpectedEof)));
    assert_eq!(read_urf(&file[..20], 7), Err(UrfError::Codec(CodecError::UnexpectedEof)));
}

#[test]
fn urf_writer_refuses_unfinished_page() {
    let mut w = UrfWriter::new(UrfHeader { page_count: 1 });
    let mut out = Vec::new();
    assert_eq!(w.finish(1024, false, &mut out), Ok(true));
    w.next_page(&page(4, 4)).unwrap();
    w.write(&[1, 2, 3], 1024, false, &mut out).unwrap();
    assert_eq!(w.finish(1024, false, &mut out), Err(UrfError::Codec(CodecError::InvalidData)));
}

#[test]
fn header_reader_resumes_and_ends_cleanly() {
    let mut f = HeaderReader::new(4);
    assert_eq!(f.feed(&[1, 2], false), Ok(FrameStatus::Incomplete { consumed: 2 }));
    assert_eq!(f.feed(&[3, 4, 5], false), Ok(FrameStatus::Complete { consumed: 2 }));
    assert_eq!(f.bytes(), &[1, 2, 3, 4]);
    let mut g = HeaderReader::new(4);
    assert_eq!(g.feed(&[], true), Ok(FrameStatus::NoMore));
    let mut h = HeaderReader::new(4);
    assert_eq!(h.feed(&[9], true), Err(CodecError::UnexpectedEof));
}

fn cups_header(width: u32, height: u32) -> CupsPageHeaderV2 {
    let mut h = CupsPageHeaderV2::from_v1(CupsPageHeaderV1 {
        media_class: String::new(),
        media_color: String::new(),
        media_type: String::new(),
        output_type: String::new(),
        advance_distance: 0,
        advance_media: CupsAdvance::Never,
        collate: false,
        cut_media: CupsCut::Never,
        duplex: false,
        resolution: CupsResolution { cross_feed: 72, feed: 72 },
        imaging_bbox: CupsImagingBoundingBox { left: 0, bottom: 0, right: 0, top: 0 },
        insert_sheet: false,
        jog: CupsJog::Never,
        leading_edge: CupsLeadingEdge::Top,
        margins: CupsMargins { left: 0, bottom: 0 },
        manual_feed: false,
        media_position: 0,
        media_weight: 0,
        mirror_print: false,
        negative_print: false,
        num_copies: 1,
        orientation: CupsOrientation::Portrait,
        output_face_up: false,
        page_size: CupsPageSize { width: 612, height: 792 },
        separations: false,
        tray_switch: false,
        tumble: false,
        width,
        height,
        cups_media_type: 0,
        bits_per_color: 8,
        bits_per_pixel: 24,
        bytes_per_line: width * 3,
        color_order: CupsColorOrder::Chunky,
        color_space: CupsColorSpace::sRGB,
        cups_compression: 1,
        cups_row_count: 0,
        cups_row_feed: 0,
        cups_row_step: 0,
    });
    h.num_colors = 3;
    h.vendor_str[2] = "vendor".to_string();
    h.page_size_name = "na_letter_8.5x11in".to_string();
    h
}

#[test]
fn cups_round_trip_every_version() {
    for word in [
        CupsSyncWord::V1BigEndian,
        CupsSyncWord::V1LittleEndian,
        CupsSyncWord::V2BigEndian,
        CupsSyncWord::V2LittleEndian,
        CupsSyncWord::V3BigEndian,
        CupsSyncWord::V3LittleEndian,
    ] {
        let header = cups_header(8, 8);
        let data = pixels(192, 7);
        let mut w = CupsRasterWriter::new(word);
        let mut file = Vec::new();
        w.next_page(&header).unwrap_err();
        while !w.finish(3, false, &mut file).unwrap() {}
        w.next_page(&header).unwrap();
        let mut pos: usize = 0;
        while pos < data.len() {
            pos += w.write(&data[pos..], 5, false, &mut file).unwrap().consumed;
        }
        while !w.finish(5, false, &mut file).unwrap() {}
        assert_eq!(&file[..4], &word.to_bytes());

        let mut r = CupsRasterUnifiedReader::new([file[0], file[1], file[2], file[3]]).unwrap();
        assert_eq!(r.sync_word(), word);
        let mut pos: usize = 4;
        let mut seen = Vec::new();
        let mut decoded = Vec::new();
        loop {
            let end = (pos + 11).min(file.len());
            let eof = end == file.len();
            match r.advance(&file[pos..end], eof, 13, &mut decoded).unwrap() {
                PageEvent::Progress { consumed } | PageEvent::Pending { consumed } => pos += consumed,
                PageEvent::Page { consumed, header } => {
                    pos += consumed;
                    seen.push(header);
                }
                PageEvent::Data { consumed, .. } => pos += consumed,
                PageEvent::End => break,
            }
        }
        assert_eq!(decoded, data);
        assert_eq!(seen.len(), 1);
        if matches!(word, CupsSyncWord::V1BigEndian | CupsSyncWord::V1LittleEndian) {
            assert_eq!(seen[0].v1, header.v1);
        } else {
            assert_eq!(seen[0], header);
        }
    }
}

#[test]
fn cups_partial_page_header_is_unexpected_eof() {
    let mut r = CupsRasterUnifiedReader::new(*b"RaS2").unwrap();
    let mut out = Vec::new();
    assert_eq!(
        r.advance(&[0u8; 100], true, 64, &mut out),
        Err(print_raster::cups::CupsRasterError::Codec(CodecError::UnexpectedEof))
    );
    let mut r = CupsRasterUnifiedReader::new(*b"RaS2").unwrap();
    assert_eq!(r.advance(&[], true, 64, &mut out), Ok(PageEvent::End));
}

#[test]
fn urf_finish_with_little_room() {
    let mut w = UrfWriter::new(UrfHeader { page_count: 2 });
    let mut out = Vec::new();
    assert_eq!(w.finish(5, false, &mut out), Ok(false));
    assert_eq!(out.len(), 5);
    assert_eq!(w.finish(5, false, &mut out), Ok(false));
    assert_eq!(w.finish(5, false, &mut out), Ok(true));
    assert_eq!(out, vec![0x55, 0x4E, 0x49, 0x52, 0x41, 0x53, 0x54, 0x00, 0, 0, 0, 2]);
    let mut w = UrfWriter::new(UrfHeader { page_count: 2 });
    let mut out = Vec::new();
    assert_eq!(w.finish(0, true, &mut out), Err(UrfError::Codec(CodecError::WriteZero)));
}
