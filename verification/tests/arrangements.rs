use octatools::arrangements::{ArrangeRow, ArrangementBlock, ArrangementFile, ARRANGEMENT_DEFAULT_NAME, ARRANGEMENT_FILE_HEADER};

#[test]
fn default_arrangement_block_has_no_rows_in_use() {
    let b = ArrangementBlock::default();
    assert_eq!(b.name, ARRANGEMENT_DEFAULT_NAME);
    assert_eq!(&b.name, b"OCTATOOLS-ARR  ");
    assert_eq!(b.n_rows, 0);
    assert_eq!(b.rows.len(), 256);
    assert!(b.rows.iter().all(|r| *r == ArrangeRow::EmptyRow()));
}

#[test]
fn default_arrangement_file() {
    let f = ArrangementFile::default();
    assert_eq!(f.header, ARRANGEMENT_FILE_HEADER);
    assert_eq!(&f.header[0..4], b"FORM");
    assert_eq!(f.arrangement_state_current, ArrangementBlock::default());
    assert_eq!(f.arrangement_state_previous, ArrangementBlock::default());
    assert_eq!(f.arrangements_active_flag, [0; 8]);
    assert_eq!(f.check_sum, [0, 0]);
    assert_eq!(ArrangeRow::default(), ArrangeRow::EmptyRow());
}
