use spark_collect_plugin::il2cpp::{IDictionary, IEnumeratorIterator, IList, Thread};
use spark_collect_plugin::sdk::{host_version_supported, non_null, search_assemblies, Hachimi, HachimiApi, Interceptor, LogLevel, Vtable};
use std::cell::RefCell;

fn zero_vtable() -> Vtable {
    Vtable {
        hachimi_instance: 1, hachimi_get_interceptor: 2, interceptor_hook: 0, interceptor_hook_vtable: 0,
        interceptor_get_trampoline_addr: 0, interceptor_unhook: 0, il2cpp_resolve_symbol: 0,
        il2cpp_get_assembly_image: 0, il2cpp_get_class: 0, il2cpp_get_method: 0, il2cpp_get_method_overload: 0,
        il2cpp_get_method_addr: 0, il2cpp_get_method_overload_addr: 0, il2cpp_get_method_cached: 0,
        il2cpp_get_method_addr_cached: 0, il2cpp_find_nested_class: 0, il2cpp_resolve_icall: 0,
        il2cpp_class_get_methods: 0, il2cpp_get_field_from_name: 0, il2cpp_get_field_value: 0,
        il2cpp_set_field_value: 0, il2cpp_get_static_field_value: 0, il2cpp_set_static_field_value: 0,
        il2cpp_object_new: 0, il2cpp_unbox: 0, il2cpp_get_main_thread: 0, il2cpp_get_attached_threads: 0,
        il2cpp_schedule_on_thread: 0, il2cpp_create_array: 0, il2cpp_get_singleton_like_instance: 0, log: 9,
    }
}

#[test]
fn api_handles_keep_what_they_were_given() {
    let api = HachimiApi::new(zero_vtable(), 3);
    assert_eq!(api.version(), 3);
    assert_eq!(api.vtable().log, 9);
    assert_eq!(api.il2cpp().0.version(), 3);
    assert_eq!(Hachimi::from_raw(&api, 77).as_raw(), 77);
    assert_eq!(Interceptor::from_raw(&api, 78).as_raw(), 78);
    assert_eq!(Thread::from_raw(5).as_raw(), 5);
    let t = Thread::from_raw(9);
    let copy = t.clone();
    assert_eq!(copy.as_raw(), 9);
    assert_eq!(t.as_raw(), 9);
    assert!(host_version_supported(1));
    assert!(!host_version_supported(0));
    assert_eq!(LogLevel::Error.to_raw(), 1);
    assert_eq!(LogLevel::Trace.to_raw(), 5);
    assert_eq!(non_null(0), None);
    assert_eq!(non_null(12), Some(12));
}

#[test]
fn ilist_bounds_and_iteration() {
    let store = RefCell::new(vec![10, 20, 30]);
    let list = IList::with_methods(
        0x1000,
        |this: usize, i: i32| { assert_eq!(this, 0x1000); store.borrow()[i as usize] },
        |_this: usize, i: i32, v: i32| store.borrow_mut()[i as usize] = v,
        |_this: usize| store.borrow().len() as i32,
    );
    assert_eq!(list.count(), 3);
    assert_eq!(list.get(-1), None);
    assert_eq!(list.get(3), None);
    assert_eq!(list.get(1), Some(20));
    assert!(list.set(2, 33));
    assert!(!list.set(3, 0));
    let mut it = list.iter();
    let mut seen = Vec::new();
    while let Some(x) = it.next() {
        seen.push(x);
    }
    assert_eq!(seen, vec![10, 20, 33]);
}

#[test]
fn idictionary_and_enumerator_forward_calls() {
    let d = IDictionary::with_methods(
        7,
        |_this: usize, k: i32| k * 2,
        |_this: usize, _k: i32, _v: i32| {},
        |_this: usize, k: i32| k > 0,
    );
    assert_eq!(d.get(21), 42);
    assert!(d.contains(1));
    assert!(!d.contains(0));
    d.set(1, 1);

    let left = RefCell::new(2);
    let mut e = IEnumeratorIterator::with_methods(
        9,
        Some(|_this: usize| *left.borrow()),
        |_this: usize| { let mut l = left.borrow_mut(); if *l > 0 { *l -= 1; true } else { false } },
    );
    assert_eq!(e.next(), Some(1));
    assert_eq!(e.next(), Some(0));
    assert_eq!(e.next(), None);
    let mut none: IEnumeratorIterator<i32, fn(usize) -> i32, _> = IEnumeratorIterator::with_methods(9, None, |_this: usize| true);
    assert_eq!(none.next(), None);
}

#[test]
fn assembly_search_stops_at_the_first_class() {
    let assemblies = [0usize, 10, 20, 30];
    let image_of = |a: usize| if a == 10 { 0 } else { a + 1 };
    let class_in = |img: usize| if img == 21 { 0 } else { img * 100 };
    assert_eq!(search_assemblies(&assemblies, image_of, class_in), (3100, 3));
    let none = |_: usize| 0usize;
    assert_eq!(search_assemblies(&assemblies, image_of, none), (0, 4));
    assert_eq!(search_assemblies(&[], image_of, class_in), (0, 0));
}
