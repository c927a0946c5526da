use hermes_core::cell_index::{CellIndex, KeyError};
use hermes_core::data::{CellRef, RefMode, SheetIndex, SheetRef};
use hermes_core::utils::{col_to_index, index_to_col, index_to_row, row_to_index};

fn cell(sheet: SheetRef, col: u16, row: u16, col_mode: RefMode, row_mode: RefMode) -> CellRef {
    CellRef { sheet, col, row, col_mode, row_mode }
}

#[test]
fn cell_ref_from_str() {
    assert_eq!(
        CellRef::from_str("a1"),
        Some(CellRef {
            sheet: SheetRef::Relative,
            col: 0,
            row: 0,
            col_mode: RefMode::Relative,
            row_mode: RefMode::Relative,
        })
    );
    assert_eq!(
        CellRef::from_str("b10"),
        Some(CellRef {
            sheet: SheetRef::Relative,
            col: 1,
            row: 9,
            col_mode: RefMode::Relative,
            row_mode: RefMode::Relative,
        })
    );
    assert_eq!(
        CellRef::from_str("ab2"),
        Some(CellRef {
            sheet: SheetRef::Relative,
            col: 27,
            row: 1,
            col_mode: RefMode::Relative,
            row_mode: RefMode::Relative,
        })
    );
    assert_eq!(
        CellRef::from_str("ac24"),
        Some(CellRef {
            sheet: SheetRef::Relative,
            col: 28,
            row: 23,
            col_mode: RefMode::Relative,
            row_mode: RefMode::Relative,
        })
    );

    assert_eq!(
        CellRef::from_str("$a1"),
        Some(CellRef {
            sheet: SheetRef::Relative,
            col: 0,
            row: 0,
            col_mode: RefMode::Absolute,
            row_mode: RefMode::Relative,
        })
    );
    assert_eq!(
        CellRef::from_str("$b10"),
        Some(CellRef {
            sheet: SheetRef::Relative,
            col: 1,
            row: 9,
            col_mode: RefMode::Absolute,
            row_mode: RefMode::Relative,
        })
    );
    assert_eq!(
        CellRef::from_str("$ab2"),
        Some(CellRef {
            sheet: SheetRef::Relative,
            col: 27,
            row: 1,
            col_mode: RefMode::Absolute,
            row_mode: RefMode::Relative,
        })
    );
    assert_eq!(
        CellRef::from_str("$ac24"),
        Some(CellRef {
            sheet: SheetRef::Relative,
            col: 28,
            row: 23,
            col_mode: RefMode::Absolute,
            row_mode: RefMode::Relative,
        })
    );

    assert_eq!(
        CellRef::from_str("a$1"),
        Some(CellRef {
            sheet: SheetRef::Relative,
            col: 0,
            row: 0,
            col_mode: RefMode::Relative,
            row_mode: RefMode::Absolute,
        })
    );
    assert_eq!(
        CellRef::from_str("b$10"),
        Some(CellRef {
            sheet: SheetRef::Relative,
            col: 1,
            row: 9,
            col_mode: RefMode::Relative,
            row_mode: RefMode::Absolute,
        })
    );
    assert_eq!(
        CellRef::from_str("ab$2"),
        Some(CellRef {
            sheet: SheetRef::Relative,
            col: 27,
            row: 1,
            col_mode: RefMode::Relative,
            row_mode: RefMode::Absolute,
        })
    );
    assert_eq!(
        CellRef::from_str("ac$24"),
        Some(CellRef {
            sheet: SheetRef::Relative,
            col: 28,
            row: 23,
            col_mode: RefMode::Relative,
            row_mode: RefMode::Absolute,
        })
    );

    assert_eq!(
        CellRef::from_str("$a$1"),
        Some(CellRef {
            sheet: SheetRef::Relative,
            col: 0,
            row: 0,
            col_mode: RefMode::Absolute,
            row_mode: RefMode::Absolute,
        })
    );
    assert_eq!(
        CellRef::from_str("$b$10"),
        Some(CellRef {
            sheet: SheetRef::Relative,
            col: 1,
            row: 9,
            col_mode: RefMode::Absolute,
            row_mode: RefMode::Absolute,
        })
    );
    assert_eq!(
        CellRef::from_str("$ab$2"),
        Some(CellRef {
            sheet: SheetRef::Relative,
            col: 27,
            row: 1,
            col_mode: RefMode::Absolute,
            row_mode: RefMode::Absolute,
        })
    );
    assert_eq!(
        CellRef::from_str("$ac$24"),
        Some(CellRef {
            sheet: SheetRef::Relative,
            col: 28,
            row: 23,
            col_mode: RefMode::Absolute,
            row_mode: RefMode::Absolute,
        })
    );

    assert_eq!(
        CellRef::from_str("sheet!$a$1"),
        Some(CellRef {
            sheet: SheetRef::Absolute(SheetIndex::Label("sheet".to_string())),
            col: 0,
            row: 0,
            col_mode: RefMode::Absolute,
            row_mode: RefMode::Absolute,
        })
    );
    assert_eq!(
        CellRef::from_str("0!$b$10"),
        Some(CellRef {
            sheet: SheetRef::Absolute(SheetIndex::Index(0)),
            col: 1,
            row: 9,
            col_mode: RefMode::Absolute,
            row_mode: RefMode::Absolute,
        })
    );
    assert_eq!(
        CellRef::from_str("sheet!$ab$2"),
        Some(CellRef {
            sheet: SheetRef::Absolute(SheetIndex::Label("sheet".to_string())),
            col: 27,
            row: 1,
            col_mode: RefMode::Absolute,
            row_mode: RefMode::Absolute,
        })
    );
    assert_eq!(
        CellRef::from_str("2!$ac$24"),
        Some(CellRef {
            sheet: SheetRef::Absolute(SheetIndex::Index(2)),
            col: 28,
            row: 23,
            col_mode: RefMode::Absolute,
            row_mode: RefMode::Absolute,
        })
    );

    assert!(CellRef::from_str("4").is_none());
    assert!(CellRef::from_str("a").is_none());
    assert!(CellRef::from_str("acb24").is_none());
    assert!(CellRef::from_str("a2c").is_none());
    assert!(CellRef::from_str("$$a2").is_none());
    assert!(CellRef::from_str("a2$").is_none());
    assert!(CellRef::from_str("a2!sheet").is_none());
    assert!(CellRef::from_str("sheet!a2!").is_none());
    assert!(CellRef::from_str("sheet$a2").is_none());
}

#[test]
fn cell_ref_as_str() {
    let cell = CellRef {
        sheet: SheetRef::Relative,
        col: 0,
        row: 0,
        col_mode: RefMode::Relative,
        row_mode: RefMode::Relative,
    };
    assert_eq!(cell.to_string(), "A1");

    let cell = CellRef {
        sheet: SheetRef::Relative,
        col: 1,
        row: 9,
        col_mode: RefMode::Relative,
        row_mode: RefMode::Relative,
    };
    assert_eq!(cell.to_string(), "B10");

    let cell = CellRef {
        sheet: SheetRef::Relative,
        col: 27,
        row: 1,
        col_mode: RefMode::Relative,
        row_mode: RefMode::Relative,
    };
    assert_eq!(cell.to_string(), "AB2");

    let cell = CellRef {
        sheet: SheetRef::Relative,
        col: 28,
        row: 23,
        col_mode: RefMode::Relative,
        row_mode: RefMode::Relative,
    };
    assert_eq!(cell.to_string(), "AC24");

    let cell = CellRef {
        sheet: SheetRef::Relative,
        col: 0,
        row: 0,
        col_mode: RefMode::Absolute,
        row_mode: RefMode::Relative,
    };
    assert_eq!(cell.to_string(), "$A1");

    let cell = CellRef {
        sheet: SheetRef::Relative,
        col: 1,
        row: 9,
        col_mode: RefMode::Absolute,
        row_mode: RefMode::Relative,
    };
    assert_eq!(cell.to_string(), "$B10");

    let cell = CellRef {
        sheet: SheetRef::Relative,
        col: 27,
        row: 1,
        col_mode: RefMode::Absolute,
        row_mode: RefMode::Relative,
    };
    assert_eq!(cell.to_string(), "$AB2");

    let cell = CellRef {
        sheet: SheetRef::Relative,
        col: 28,
        row: 23,
        col_mode: RefMode::Absolute,
        row_mode: RefMode::Relative,
    };
    assert_eq!(cell.to_string(), "$AC24");

    let cell = CellRef {
        sheet: SheetRef::Relative,
        col: 0,
        row: 0,
        col_mode: RefMode::Relative,
        row_mode: RefMode::Absolute,
    };
    assert_eq!(cell.to_string(), "A$1");

    let cell = CellRef {
        sheet: SheetRef::Relative,
        col: 1,
        row: 9,
        col_mode: RefMode::Relative,
        row_mode: RefMode::Absolute,
    };
    assert_eq!(cell.to_string(), "B$10");

    let cell = CellRef {
        sheet: SheetRef::Relative,
        col: 27,
        row: 1,
        col_mode: RefMode::Relative,
        row_mode: RefMode::Absolute,
    };
    assert_eq!(cell.to_string(), "AB$2");

    let cell = CellRef {
        sheet: SheetRef::Relative,
        col: 28,
        row: 23,
        col_mode: RefMode::Relative,
        row_mode: RefMode::Absolute,
    };
    assert_eq!(cell.to_string(), "AC$24");

    let cell = CellRef {
        sheet: SheetRef::Relative,
        col: 0,
        row: 0,
        col_mode: RefMode::Absolute,
        row_mode: RefMode::Absolute,
    };
    assert_eq!(cell.to_string(), "$A$1");

    let cell = CellRef {
        sheet: SheetRef::Relative,
        col: 1,
        row: 9,
        col_mode: RefMode::Absolute,
        row_mode: RefMode::Absolute,
    };
    assert_eq!(cell.to_string(), "$B$10");

    let cell = CellRef {
        sheet: SheetRef::Relative,
        col: 27,
        row: 1,
        col_mode: RefMode::Absolute,
        row_mode: RefMode::Absolute,
    };
    assert_eq!(cell.to_string(), "$AB$2");

    let cell = CellRef {
        sheet: SheetRef::Relative,
        col: 28,
        row: 23,
        col_mode: RefMode::Absolute,
        row_mode: RefMode::Absolute,
    };
    assert_eq!(cell.to_string(), "$AC$24");

    let cell = CellRef {
        sheet: SheetRef::Absolute(SheetIndex::Label("sheet".to_string())),
        col: 0,
        row: 0,
        col_mode: RefMode::Absolute,
        row_mode: RefMode::Absolute,
    };
    assert_eq!(cell.to_string(), "sheet!$A$1");

    let cell = CellRef {
        sheet: SheetRef::Absolute(SheetIndex::Index(0)),
        col: 1,
        row: 9,
        col_mode: RefMode::Absolute,
        row_mode: RefMode::Absolute,
    };
    assert_eq!(cell.to_string(), "0!$B$10");

    let cell = CellRef {
        sheet: SheetRef::Absolute(SheetIndex::Label("sheet".to_string())),
        col: 27,
        row: 1,
        col_mode: RefMode::Absolute,
        row_mode: RefMode::Absolute,
    };
    assert_eq!(cell.to_string(), "sheet!$AB$2");

    let cell = CellRef {
        sheet: SheetRef::Absolute(SheetIndex::Index(2)),
        col: 28,
        row: 23,
        col_mode: RefMode::Absolute,
        row_mode: RefMode::Absolute,
    };
    assert_eq!(cell.to_string(), "2!$AC$24");
}

#[test]
fn index_to_col_label() {
    assert_eq!(index_to_col(0), "A".to_string());
    assert_eq!(index_to_col(1), "B".to_string());
    assert_eq!(index_to_col(25), "Z".to_string());
    assert_eq!(index_to_col(26), "AA".to_string());
    assert_eq!(index_to_col(27), "AB".to_string());
    assert_eq!(index_to_col(51), "AZ".to_string());
    assert_eq!(index_to_col(52), "BA".to_string());
    assert_eq!(index_to_col(53), "BB".to_string());
    assert_eq!(index_to_col(675), "YZ".to_string());
    assert_eq!(index_to_col(676), "ZA".to_string());
    assert_eq!(index_to_col(701), "ZZ".to_string());
}

#[test]
fn col_label_to_index() {
    assert_eq!(col_to_index("A"), Some(0));
    assert_eq!(col_to_index("B"), Some(1));
    assert_eq!(col_to_index("Z"), Some(25));
    assert_eq!(col_to_index("AA"), Some(26));
    assert_eq!(col_to_index("AB"), Some(27));
    assert_eq!(col_to_index("AZ"), Some(51));
    assert_eq!(col_to_index("BA"), Some(52));
    assert_eq!(col_to_index("BB"), Some(53));
    assert_eq!(col_to_index("YZ"), Some(675));
    assert_eq!(col_to_index("ZA"), Some(676));
    assert_eq!(col_to_index("ZZ"), Some(701));

    assert_eq!(col_to_index("a"), Some(0));
    assert_eq!(col_to_index("b"), Some(1));
    assert_eq!(col_to_index("z"), Some(25));
    assert_eq!(col_to_index("aa"), Some(26));
    assert_eq!(col_to_index("ab"), Some(27));
    assert_eq!(col_to_index("az"), Some(51));
    assert_eq!(col_to_index("ba"), Some(52));
    assert_eq!(col_to_index("bb"), Some(53));
    assert_eq!(col_to_index("yz"), Some(675));
    assert_eq!(col_to_index("za"), Some(676));
    assert_eq!(col_to_index("zz"), Some(701));
}

#[test]
fn col_codec_is_a_bijection_up_to_zz() {
    for i in 0..=701u16 {
        let label = index_to_col(i);
        assert_eq!(col_to_index(&label), Some(i));
        assert_eq!(col_to_index(&label.to_lowercase()), Some(i));
    }
    assert_eq!(col_to_index(""), None);
    assert_eq!(col_to_index("AAA"), None);
    assert_eq!(col_to_index("A1"), None);
    assert_eq!(col_to_index("é"), None);
}

#[test]
fn row_codec() {
    assert_eq!(index_to_row(0), "1");
    assert_eq!(index_to_row(9), "10");
    assert_eq!(index_to_row(65534), "65535");
    assert_eq!(index_to_row(65535), "65536");
    assert_eq!(row_to_index(0), None);
    assert_eq!(row_to_index(1), Some(0));
    assert_eq!(row_to_index(65535), Some(65534));
}

#[test]
fn cell_ref_round_trip() {
    let sheets = [
        SheetRef::Relative,
        SheetRef::Absolute(SheetIndex::Index(0)),
        SheetRef::Absolute(SheetIndex::Index(65535)),
        SheetRef::Absolute(SheetIndex::Label("sheet".to_string())),
        SheetRef::Absolute(SheetIndex::Label("Sheet 1".to_string())),
        SheetRef::Absolute(SheetIndex::Label("65536".to_string())),
        SheetRef::Absolute(SheetIndex::Label(String::new())),
    ];
    let modes = [RefMode::Relative, RefMode::Absolute];
    for sheet in sheets.iter() {
        for col in [0u16, 1, 25, 26, 51, 52, 700, 701] {
            for row in [0u16, 1, 8, 9, 98, 99, 65533, 65534] {
                for col_mode in modes {
                    for row_mode in modes {
                        let written = cell(sheet.clone(), col, row, col_mode, row_mode);
                        let text = written.to_string();
                        assert_eq!(CellRef::from_str(&text), Some(written));
                    }
                }
            }
        }
    }
}

#[test]
fn cell_ref_rejects_what_is_no_reference() {
    assert!(CellRef::from_str("").is_none());
    assert!(CellRef::from_str("$").is_none());
    assert!(CellRef::from_str("!a1").is_some());
    assert!(CellRef::from_str("a0").is_none());
    assert!(CellRef::from_str("a00").is_none());
    assert!(CellRef::from_str("a65535").is_some());
    assert!(CellRef::from_str("a65536").is_none());
    assert!(CellRef::from_str("a99999999999999999999999").is_none());
    assert!(CellRef::from_str("a 1").is_none());
    assert!(CellRef::from_str("a$$1").is_none());
    assert!(CellRef::from_str("é1").is_none());
    assert!(CellRef::from_str("sh$eet!a1").is_none());
    assert!(CellRef::from_str("a!b!c1").is_none());
    assert_eq!(
        CellRef::from_str("+7!Zz$007"),
        Some(cell(
            SheetRef::Absolute(SheetIndex::Index(7)),
            701,
            6,
            RefMode::Relative,
            RefMode::Absolute
        ))
    );
    assert_eq!(
        CellRef::from_str("70000!a1"),
        Some(cell(
            SheetRef::Absolute(SheetIndex::Label("70000".to_string())),
            0,
            0,
            RefMode::Relative,
            RefMode::Relative
        ))
    );
    assert_eq!(
        CellRef::from_str("Sheet!a1"),
        Some(cell(
            SheetRef::Absolute(SheetIndex::Label("Sheet".to_string())),
            0,
            0,
            RefMode::Relative,
            RefMode::Relative
        ))
    );
}

#[test]
fn cell_ref_constructors() {
    let sheet = || SheetIndex::Label("s".to_string());
    assert_eq!(
        CellRef::dynamic(3, 4),
        cell(SheetRef::Relative, 4, 3, RefMode::Relative, RefMode::Relative)
    );
    assert_eq!(
        CellRef::dynamic_with_sheet(3, 4, sheet()),
        cell(SheetRef::Absolute(sheet()), 4, 3, RefMode::Relative, RefMode::Relative)
    );
    assert_eq!(
        CellRef::col_absolute(3, 4),
        cell(SheetRef::Relative, 4, 3, RefMode::Absolute, RefMode::Relative)
    );
    assert_eq!(
        CellRef::col_absolute_with_sheet(3, 4, sheet()),
        cell(SheetRef::Absolute(sheet()), 4, 3, RefMode::Absolute, RefMode::Relative)
    );
    assert_eq!(
        CellRef::row_absolute(3, 4),
        cell(SheetRef::Relative, 4, 3, RefMode::Relative, RefMode::Absolute)
    );
    assert_eq!(
        CellRef::row_absolute_with_sheet(3, 4, sheet()),
        cell(SheetRef::Absolute(sheet()), 4, 3, RefMode::Relative, RefMode::Absolute)
    );
    assert_eq!(
        CellRef::aboslute(3, 4),
        cell(SheetRef::Relative, 4, 3, RefMode::Absolute, RefMode::Absolute)
    );
    assert_eq!(
        CellRef::absolute_with_sheet(3, 4, SheetIndex::Index(9)),
        cell(
            SheetRef::Absolute(SheetIndex::Index(9)),
            4,
            3,
            RefMode::Absolute,
            RefMode::Absolute
        )
    );
}

#[test]
fn cell_index_order_and_text() {
    let a = CellIndex::new(1, 5);
    let b = CellIndex::new(2, 0);
    let c = CellIndex::new(2, 3);
    assert_eq!(a.row(), 1);
    assert_eq!(a.col(), 5);
    assert!(a < b);
    assert!(b < c);
    assert!(c > a);
    assert!(a <= a);
    assert_eq!(a, CellIndex::new(1, 5));
    assert_ne!(a, b);
    assert_eq!(a.cmp(&b), std::cmp::Ordering::Less);
    assert_eq!(c.partial_cmp(&b), Some(std::cmp::Ordering::Greater));
    assert_eq!(CellIndex::new(0, 0).to_string(), "A1");
    assert_eq!(CellIndex::new(9, 27).to_string(), "AB10");
}

#[test]
fn cell_index_key() {
    assert_eq!(CellIndex::new(0, 0).to_key(), "(0,0)");
    assert_eq!(CellIndex::new(12, 345).to_key(), "(12,345)");
    assert_eq!(CellIndex::from_key("(12,345)"), Ok(CellIndex::new(12, 345)));
    assert_eq!(CellIndex::from_key("( 12 ,\t345 )"), Ok(CellIndex::new(12, 345)));
    assert_eq!(CellIndex::from_key("(+1,65535)"), Ok(CellIndex::new(1, 65535)));
    assert_eq!(CellIndex::from_key("12,345"), Err(KeyError::NotEnclosed));
    assert_eq!(CellIndex::from_key("("), Err(KeyError::NotEnclosed));
    assert_eq!(CellIndex::from_key("(12,345"), Err(KeyError::NotEnclosed));
    assert_eq!(CellIndex::from_key(""), Err(KeyError::NotEnclosed));
    assert_eq!(CellIndex::from_key("()"), Err(KeyError::MissingComma));
    assert_eq!(CellIndex::from_key("(12 345)"), Err(KeyError::MissingComma));
    assert_eq!(CellIndex::from_key("(,345)"), Err(KeyError::InvalidRow));
    assert_eq!(CellIndex::from_key("(-1,345)"), Err(KeyError::InvalidRow));
    assert_eq!(CellIndex::from_key("(65536,345)"), Err(KeyError::InvalidRow));
    assert_eq!(CellIndex::from_key("(1 2,345)"), Err(KeyError::InvalidRow));
    assert_eq!(CellIndex::from_key("(12,)"), Err(KeyError::InvalidCol));
    assert_eq!(CellIndex::from_key("(12,3,4)"), Err(KeyError::InvalidCol));
    for row in [0u16, 7, 65535] {
        for col in [0u16, 10, 65535] {
            let index = CellIndex::new(row, col);
            assert_eq!(CellIndex::from_key(&index.to_key()), Ok(index));
        }
    }
}
