use modbus_bench::ui::{clip_fits, clip_hex, dashboard_rows_for_devices, list_index_at, tab_at_col, Tab, TAB_COUNT};

#[test]
fn tab_at_col_maps_tabs() {
    // Dashboard[1,10) Ports[14,19) Registers[23,32) Sensors[36,43)
    // Firmware[47,55) Bus[59,62) Log[66,69) Help[73,77).
    assert_eq!(tab_at_col(1), Some(0));
    assert_eq!(tab_at_col(9), Some(0));
    assert_eq!(tab_at_col(14), Some(1));
    assert_eq!(tab_at_col(18), Some(1));
    assert_eq!(tab_at_col(23), Some(2));
    assert_eq!(tab_at_col(36), Some(3));
    assert_eq!(tab_at_col(47), Some(4));
    assert_eq!(tab_at_col(54), Some(4));
    assert_eq!(tab_at_col(59), Some(5));
    assert_eq!(tab_at_col(61), Some(5));
    assert_eq!(tab_at_col(66), Some(6));
    assert_eq!(tab_at_col(73), Some(7));
    assert_eq!(tab_at_col(0), None);
    assert_eq!(tab_at_col(13), None);
    assert_eq!(tab_at_col(u16::MAX), None);
}

#[test]
fn list_index_at_borders() {
    assert_eq!(list_index_at(0, 5), None);
    assert_eq!(list_index_at(1, 5), Some(0));
    assert_eq!(list_index_at(5, 5), Some(4));
    assert_eq!(list_index_at(6, 5), None);
}

#[test]
fn tab_titles_and_cycle() {
    assert_eq!(Tab::Dashboard.title(), "Dashboard");
    assert_eq!(Tab::Bus.title(), "Bus");
    assert_eq!(Tab::Help.next(), Tab::Dashboard);
    assert_eq!(Tab::Dashboard.prev(), Tab::Help);
    assert_eq!(Tab::Firmware.next(), Tab::Bus);
    assert_eq!(Tab::Bus.next(), Tab::Log);
    for i in 0..TAB_COUNT {
        let t = Tab::from_index(i);
        assert_eq!(t.index(), i);
        assert_eq!(t.next().prev(), t);
        assert_eq!(t.prev().next(), t);
        assert_eq!(t.title().len() as u16, t.title_width());
    }
}

#[test]
fn tab_at_col_hits_every_title_column() {
    let mut col: u16 = 1;
    for i in 0..TAB_COUNT {
        let w = Tab::from_index(i).title_width();
        for c in col..col + w {
            assert_eq!(tab_at_col(c), Some(i));
        }
        assert_eq!(tab_at_col(col + w), None);
        col += w + 4;
    }
}

#[test]
fn dashboard_rows_map_has_device_headers() {
    // Four devices with three channels and eight coils each.
    let map = dashboard_rows_for_devices(&[3, 3, 3, 3], &[8, 8, 8, 8], true);
    let headers: Vec<usize> = map.iter().flatten().copied().collect();
    assert_eq!(headers, vec![0, 1, 2, 3]);
    assert_eq!(map.len(), 4 * 15);
    assert_eq!(map[0], None);
    assert_eq!(map[1], Some(0));
    assert_eq!(map[2], None);
    assert_eq!(map[6], None);
    assert_eq!(map[14], None);
    assert_eq!(map[15], None);
    assert_eq!(map[16], Some(1));
}

#[test]
fn dashboard_rows_map_none_when_disconnected_empty() {
    assert!(dashboard_rows_for_devices(&[], &[], false).is_empty());
    // Connected but empty: still nothing to select.
    assert!(dashboard_rows_for_devices(&[], &[], true).is_empty());
}

#[test]
fn dashboard_rows_without_coils_skip_pumps_block() {
    let map = dashboard_rows_for_devices(&[2, 0], &[0, 1], false);
    assert_eq!(map, vec![None, Some(0), None, None, None, Some(1), None, None, None]);
}

#[test]
fn clip_hex_cuts_with_ellipsis() {
    assert_eq!(clip_hex("01 03 00", 8), "01 03 00");
    assert_eq!(clip_hex("01 03 00 00", 8), "01 03 0…");
    assert_eq!(clip_hex("01 03", 3), "01…");
    assert_eq!(clip_hex("01 03", 1), "0…");
    assert_eq!(clip_hex("01 03", 0), "0…");
}

#[test]
fn clip_hex_counts_bytes() {
    // Text that fits by its UTF-8 length is kept whole.
    assert_eq!(clip_hex("é", 2), "é");
    // The cut is made after `max - 1` bytes when that is a character boundary.
    assert_eq!(clip_hex("ab→cd", 4), "ab…");
    assert_eq!(clip_hex("→cdef", 6), "→cd…");
    assert!(!clip_fits("→cd", 4));
    assert!(clip_fits("ab→cd", 4));
    // A cut inside a multi-byte character cannot be made.
    assert!(!clip_fits("a→cd", 4));
    assert!(!clip_fits("→→", 3));
    assert!(clip_fits("→→", 6));
    assert!(clip_fits("01 03 00 00", 8));
}
