use async_backends::{incoming_item, Tokio, TokioFS, TokioGlobalRuntime};

#[test]
fn accepted_connection_drops_the_address() {
    let r = incoming_item::<&str, u16, String>(Ok(("conn", Some(8080))));
    assert_eq!(r, Some(Ok("conn")));
}

#[test]
fn accepted_connection_without_address() {
    let r = incoming_item::<&str, u16, String>(Ok(("conn", None)));
    assert_eq!(r, Some(Ok("conn")));
}

#[test]
fn accept_error_is_yielded_and_does_not_end() {
    let r = incoming_item::<&str, u16, String>(Err("refused".to_string()));
    assert_eq!(r, Some(Err("refused".to_string())));
}

#[test]
fn items_keep_accept_order_across_a_failure() {
    let outcomes: Vec<Result<(u32, Option<u16>), String>> = vec![
        Ok((1, Some(1000))),
        Err("e".to_string()),
        Ok((2, None)),
        Ok((3, Some(1001))),
    ];
    let mut items = Vec::new();
    for o in outcomes {
        match incoming_item(o) {
            Some(item) => items.push(item),
            None => break,
        }
    }
    assert_eq!(items, vec![Ok(1), Err("e".to_string()), Ok(2), Ok(3)]);
}

#[test]
fn global_runtime_handle_is_a_copy() {
    let a = TokioGlobalRuntime;
    let b = a;
    assert_eq!(a, b);
    let _bundle = Tokio;
    let _fs = TokioFS;
}
