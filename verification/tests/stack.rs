use forth3::stack::{Stack, StackError};

#[test]
fn push_and_pop_in_order() {
    let mut s: Stack<i32> = Stack::new(3);
    assert_eq!(s.depth(), 0);
    assert_eq!(s.capacity(), 3);
    assert_eq!(s.push(1), Ok(()));
    assert_eq!(s.push(2), Ok(()));
    assert_eq!(s.push(3), Ok(()));
    assert_eq!(s.depth(), 3);
    assert_eq!(s.try_pop(), Ok(3));
    assert_eq!(s.pop(), Some(2));
    assert_eq!(s.try_pop(), Ok(1));
    assert_eq!(s.depth(), 0);
}

#[test]
fn push_onto_a_full_stack_fails_and_keeps_the_stack() {
    let mut s: Stack<i32> = Stack::new(2);
    s.push(10).unwrap();
    s.push(20).unwrap();
    assert_eq!(s.push(30), Err(StackError::StackOverflow));
    assert_eq!(s.depth(), 2);
    assert_eq!(s.try_peek(), Ok(20));
    assert_eq!(s.try_peek_back_n(1), Ok(10));
    let mut none: Stack<i32> = Stack::new(0);
    assert_eq!(none.push(1), Err(StackError::StackOverflow));
    assert_eq!(none.depth(), 0);
}

#[test]
fn an_empty_stack_reports_empty() {
    let mut s: Stack<i32> = Stack::new(2);
    assert_eq!(s.try_pop(), Err(StackError::StackEmpty));
    assert_eq!(s.pop(), None);
    assert_eq!(s.try_peek(), Err(StackError::StackEmpty));
    assert_eq!(s.peek(), None);
    assert_eq!(s.try_peek_back_n(0), Err(StackError::StackEmpty));
    assert_eq!(s.peek_back_n(0), None);
    assert_eq!(s.overwrite_back_n(0, 5), Err(StackError::StackEmpty));
}

#[test]
fn reaching_below_the_bottom_is_an_underflow() {
    let mut s: Stack<i32> = Stack::new(4);
    s.push(1).unwrap();
    s.push(2).unwrap();
    assert_eq!(s.try_peek_back_n(0), Ok(2));
    assert_eq!(s.try_peek_back_n(1), Ok(1));
    assert_eq!(s.try_peek_back_n(2), Err(StackError::StackUnderflow));
    assert_eq!(s.peek_back_n(1), Some(1));
    assert_eq!(s.peek_back_n(2), None);
    assert_eq!(s.overwrite_back_n(2, 9), Err(StackError::StackUnderflow));
    assert_eq!(s.overwrite_back_n(1, 9), Ok(()));
    assert_eq!(s.try_pop(), Ok(2));
    assert_eq!(s.try_pop(), Ok(9));
}

#[test]
fn clear_empties_and_keeps_the_capacity() {
    let mut s: Stack<u8> = Stack::new(2);
    s.push(1).unwrap();
    s.push(2).unwrap();
    s.clear();
    assert_eq!(s.depth(), 0);
    assert_eq!(s.capacity(), 2);
    assert_eq!(s.peek(), None);
    assert_eq!(s.push(3), Ok(()));
}
