use edgequake_pdf2md::config::{FidelityTier, PageSelection, PageSeparator};
use edgequake_pdf2md::convert::select_pages;
use edgequake_pdf2md::error::Pdf2MdError;

#[test]
fn test_page_selection_to_indices() {
    assert_eq!(PageSelection::All.to_indices(5), vec![0, 1, 2, 3, 4]);
    assert_eq!(PageSelection::Single(3).to_indices(5), vec![2]);
    assert_eq!(PageSelection::Single(6).to_indices(5), Vec::<usize>::new());
    assert_eq!(PageSelection::Range(2, 4).to_indices(5), vec![1, 2, 3]);
    assert_eq!(PageSelection::List(vec![1, 3, 5]).to_indices(5), vec![0, 2, 4]);
    assert_eq!(PageSelection::List(vec![3, 1, 3]).to_indices(5), vec![0, 2]);
}

#[test]
fn test_page_selection_out_of_range_is_empty() {
    assert_eq!(
        PageSelection::Single(100).to_indices(4),
        Vec::<usize>::new()
    );
}

#[test]
fn test_page_selection_range_clipping() {
    let indices = PageSelection::Range(3, 10).to_indices(4);
    assert_eq!(indices, vec![2, 3]);
}

#[test]
fn test_page_selection_set_dedup_and_sort() {
    let indices = PageSelection::List(vec![3, 1, 3, 2]).to_indices(5);
    assert_eq!(indices, vec![0, 1, 2]);
}

#[test]
fn selection_edge_cases() {
    assert_eq!(PageSelection::Single(0).to_indices(4), Vec::<usize>::new());
    assert_eq!(PageSelection::Range(0, 2).to_indices(4), vec![0, 1]);
    assert_eq!(PageSelection::Range(6, 9).to_indices(4), Vec::<usize>::new());
    assert_eq!(PageSelection::Range(3, 2).to_indices(4), Vec::<usize>::new());
    assert_eq!(PageSelection::List(vec![0, 9, 4, 4]).to_indices(4), vec![3]);
    assert_eq!(PageSelection::All.to_indices(0), Vec::<usize>::new());
}

#[test]
fn selecting_nothing_is_page_out_of_range() {
    match select_pages(&PageSelection::Single(100), 4) {
        Err(Pdf2MdError::PageOutOfRange { page, total }) => {
            assert_eq!(page, 0);
            assert_eq!(total, 4);
        }
        other => panic!("expected PageOutOfRange, got {other:?}"),
    }
    for sel in [
        PageSelection::All,
        PageSelection::Single(1),
        PageSelection::Range(1, 3),
        PageSelection::List(vec![1]),
    ] {
        assert!(matches!(
            select_pages(&sel, 0),
            Err(Pdf2MdError::PageOutOfRange { page: 0, total: 0 })
        ));
    }
    assert_eq!(select_pages(&PageSelection::Range(2, 3), 5).unwrap(), vec![1, 2]);
}

#[test]
fn separator_rendering() {
    assert_eq!(PageSeparator::Blank.render(3), "\n\n");
    assert_eq!(PageSeparator::HorizontalRule.render(3), "\n\n---\n\n");
    assert_eq!(PageSeparator::Comment.render(12), "\n\n<!-- page 12 -->\n\n");
    assert_eq!(PageSeparator::Custom("***".to_string()).render(1), "\n\n***\n\n");
}

#[test]
fn defaults() {
    assert_eq!(FidelityTier::default(), FidelityTier::Tier2);
    assert!(matches!(PageSelection::default(), PageSelection::All));
    assert!(matches!(PageSeparator::default(), PageSeparator::Blank));
}
