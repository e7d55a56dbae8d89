use write_once_store::store::AttributeStore;
use write_once_store::value::AttrError;
use write_once_store::value::AttrValue;

fn buffer_i32(data: Vec<i32>) -> AttrValue {
    AttrValue::BufI32 {
        data,
        contiguous: true,
    }
}

fn buffer_i64(data: Vec<i64>) -> AttrValue {
    AttrValue::BufI64 {
        data,
        contiguous: true,
    }
}

#[test]
fn write_once_refuses_second_add() {
    let mut s = AttributeStore::new();
    assert_eq!(s.add("n".to_string(), AttrValue::Scalar(1)), Ok(()));
    assert_eq!(
        s.add("n".to_string(), AttrValue::Scalar(2)),
        Err(AttrError::DuplicateWrite)
    );
    // The first value is still the one stored.
    assert_eq!(s.get("n"), Ok(&AttrValue::Scalar(1)));
}

#[test]
fn round_trip_returns_equal_value() {
    let mut s = AttributeStore::new();
    assert_eq!(s.add("a".to_string(), AttrValue::Scalar(-7)), Ok(()));
    assert_eq!(s.add("b".to_string(), buffer_i32(vec![1, 2, 3])), Ok(()));
    assert_eq!(s.add("c".to_string(), buffer_i64(vec![9, 8])), Ok(()));
    assert_eq!(s.add("d".to_string(), AttrValue::Other), Ok(()));
    assert_eq!(s.get("a"), Ok(&AttrValue::Scalar(-7)));
    assert_eq!(s.get("b"), Ok(&buffer_i32(vec![1, 2, 3])));
    assert_eq!(s.get("c"), Ok(&buffer_i64(vec![9, 8])));
    assert_eq!(s.get("d"), Ok(&AttrValue::Other));
}

#[test]
fn fresh_store_misses_every_name() {
    let s = AttributeStore::new();
    assert_eq!(s.get("anything"), Err(AttrError::NotFound));
    assert_eq!(s.get(""), Err(AttrError::NotFound));
    assert_eq!(s.acquire_i32("anything"), Err(AttrError::NotFound));
    assert_eq!(s.get_scalar("anything"), Err(AttrError::NotFound));
}

#[test]
fn acquire_missing_name_is_not_found() {
    let mut s = AttributeStore::new();
    assert_eq!(s.add("here".to_string(), buffer_i32(vec![1])), Ok(()));
    assert_eq!(s.acquire_i32("gone"), Err(AttrError::NotFound));
    assert_eq!(s.acquire_mut_i32("gone"), Err(AttrError::NotFound));
    assert_eq!(s.acquire_i64("gone"), Err(AttrError::NotFound));
    assert_eq!(s.acquire_mut_i64("gone"), Err(AttrError::NotFound));
}

#[test]
fn acquire_wrong_element_type_is_mismatch() {
    let mut s = AttributeStore::new();
    assert_eq!(s.add("w".to_string(), buffer_i64(vec![1, 2])), Ok(()));
    assert_eq!(s.add("v".to_string(), buffer_i32(vec![3])), Ok(()));
    assert_eq!(s.acquire_i32("w"), Err(AttrError::TypeMismatch));
    assert_eq!(s.acquire_i64("v"), Err(AttrError::TypeMismatch));
    assert_eq!(s.acquire_mut_i32("w"), Err(AttrError::TypeMismatch));
    assert_eq!(s.acquire_mut_i64("v"), Err(AttrError::TypeMismatch));
}

#[test]
fn acquire_non_buffer_is_mismatch() {
    let mut s = AttributeStore::new();
    assert_eq!(s.add("o".to_string(), AttrValue::Other), Ok(()));
    assert_eq!(s.acquire_i32("o"), Err(AttrError::TypeMismatch));
    assert_eq!(s.acquire_i64("o"), Err(AttrError::TypeMismatch));
    assert_eq!(s.get_scalar("o"), Err(AttrError::TypeMismatch));
}

#[test]
fn acquire_non_contiguous_is_refused() {
    let mut s = AttributeStore::new();
    let strided = AttrValue::BufI32 {
        data: vec![5, 6, 7],
        contiguous: false,
    };
    assert_eq!(s.add("st".to_string(), strided), Ok(()));
    assert_eq!(s.acquire_i32("st"), Err(AttrError::NonContiguous));
    assert_eq!(s.acquire_mut_i32("st"), Err(AttrError::NonContiguous));
    let strided64 = AttrValue::BufI64 {
        data: vec![5],
        contiguous: false,
    };
    assert_eq!(s.add("st64".to_string(), strided64), Ok(()));
    assert_eq!(s.acquire_i64("st64"), Err(AttrError::NonContiguous));
    assert_eq!(s.acquire_mut_i64("st64"), Err(AttrError::NonContiguous));
}

#[test]
fn mutation_through_exclusive_view_is_visible() {
    let mut s = AttributeStore::new();
    assert_eq!(s.add("buf".to_string(), buffer_i32(vec![10, 20, 30])), Ok(()));
    {
        let view = s.acquire_mut_i32("buf").unwrap();
        assert_eq!(view.len(), 3);
        view[1] = 99;
    }
    // A later opaque read observes the write at the same logical index.
    assert_eq!(s.get("buf"), Ok(&buffer_i32(vec![10, 99, 30])));
    assert_eq!(s.acquire_i32("buf"), Ok(&[10, 99, 30][..]));
}

#[test]
fn mutation_through_exclusive_view_i64() {
    let mut s = AttributeStore::new();
    assert_eq!(s.add("buf".to_string(), buffer_i64(vec![-4, 4])), Ok(()));
    {
        let view = s.acquire_mut_i64("buf").unwrap();
        view[0] = 4;
    }
    assert_eq!(s.acquire_i64("buf"), Ok(&[4i64, 4][..]));
}

#[test]
fn absolute_transform_scenario() {
    let mut s = AttributeStore::new();
    // The producing side stores the buffer with an absolute-value transform
    // already applied, as the embedded script in the demo does.
    let transformed: Vec<i32> = vec![-1i32, -2, -3].iter().map(|v: &i32| v.wrapping_abs()).collect();
    assert_eq!(s.add("list".to_string(), buffer_i32(transformed)), Ok(()));
    let view = s.acquire_i32("list").unwrap();
    assert_eq!(view.len(), 3);
    assert_eq!(view, &[1, 2, 3]);
    assert_eq!(
        s.add("list".to_string(), buffer_i32(vec![0])),
        Err(AttrError::DuplicateWrite)
    );
}

#[test]
fn scalar_is_not_a_buffer() {
    let mut s = AttributeStore::new();
    assert_eq!(s.add("x".to_string(), AttrValue::Scalar(5)), Ok(()));
    assert_eq!(s.acquire_i32("x"), Err(AttrError::TypeMismatch));
    assert_eq!(s.get_scalar("x"), Ok(5));
}

#[test]
fn shared_views_coexist() {
    let mut s = AttributeStore::new();
    assert_eq!(s.add("b".to_string(), buffer_i32(vec![1, 2])), Ok(()));
    let v1 = s.acquire_i32("b").unwrap();
    let v2 = s.acquire_i32("b").unwrap();
    assert_eq!(v1, v2);
    assert_eq!(v1, &[1, 2]);
}

#[test]
fn empty_buffer_views() {
    let mut s = AttributeStore::new();
    assert_eq!(s.add("e".to_string(), buffer_i32(vec![])), Ok(()));
    assert_eq!(s.acquire_i32("e").unwrap().len(), 0);
    assert_eq!(s.acquire_mut_i32("e").unwrap().len(), 0);
}

#[test]
fn many_attributes_stay_distinct() {
    let mut s = AttributeStore::new();
    for k in 0..20 {
        assert_eq!(s.add(format!("attr{k}"), AttrValue::Scalar(k)), Ok(()));
    }
    for k in 0..20 {
        assert_eq!(s.get_scalar(&format!("attr{k}")), Ok(k));
    }
    assert_eq!(s.get_scalar("attr20"), Err(AttrError::NotFound));
}
