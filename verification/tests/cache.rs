use robusta_jni::cache::{CacheKey, Entry, OnceTable};
use robusta_jni::runtime::{list_capacity, nullable, reference_of, MetadataCache};

#[test]
fn empty_table_has_no_entry() {
    let table: OnceTable<u32> = OnceTable::new();
    assert_eq!(table.get(&CacheKey::class("Ljava/lang/String;")), None);
}

#[test]
fn first_record_decides_the_entry() {
    let mut table: OnceTable<u32> = OnceTable::new();
    table.record(CacheKey::class("Ljava/lang/String;"), Entry::Resolved(7));
    for _ in 0..5 {
        assert_eq!(table.get(&CacheKey::class("Ljava/lang/String;")), Some(&Entry::Resolved(7)));
    }
    assert_eq!(table.get(&CacheKey::class("Ljava/lang/Object;")), None);
}

#[test]
fn table_counts_its_entries() {
    let mut table: OnceTable<u32> = OnceTable::new();
    assert_eq!(table.len(), 0);
    table.record(CacheKey::class("LResult;"), Entry::Resolved(1));
    table.record(CacheKey::class("LTuple0;"), Entry::Failed);
    assert_eq!(table.len(), 2);
    table.get(&CacheKey::class("LResult;"));
    assert_eq!(table.len(), 2);
}

#[test]
fn failure_is_kept() {
    let mut table: OnceTable<u32> = OnceTable::new();
    table.record(CacheKey::member("LResult;", "tag", "B"), Entry::Failed);
    assert_eq!(table.get(&CacheKey::member("LResult;", "tag", "B")), Some(&Entry::Failed));
    assert_eq!(table.get(&CacheKey::member("LResult;", "tag", "B")), Some(&Entry::Failed));
}

#[test]
fn members_are_told_apart_by_every_part() {
    let mut table: OnceTable<u32> = OnceTable::new();
    table.record(CacheKey::member("LResult;", "tag", "B"), Entry::Resolved(1));
    table.record(CacheKey::member("LResult;", "value", "Ljava/lang/Object;"), Entry::Resolved(2));
    table.record(CacheKey::member("LTuple1;", "t0", "Ljava/lang/Object;"), Entry::Resolved(3));
    assert_eq!(table.get(&CacheKey::member("LResult;", "tag", "B")), Some(&Entry::Resolved(1)));
    assert_eq!(
        table.get(&CacheKey::member("LResult;", "value", "Ljava/lang/Object;")),
        Some(&Entry::Resolved(2))
    );
    assert_eq!(
        table.get(&CacheKey::member("LTuple1;", "t0", "Ljava/lang/Object;")),
        Some(&Entry::Resolved(3))
    );
    assert_eq!(table.get(&CacheKey::member("LResult;", "tag", "I")), None);
    assert_eq!(table.get(&CacheKey::member("LResult;", "t0", "B")), None);
    assert_eq!(table.get(&CacheKey::class("LResult;")), None);
}

#[test]
fn keys_compare_by_content() {
    let a = CacheKey::member("LResult;", "tag", "B");
    let b = CacheKey::member("LResult;", "tag", "B");
    assert!(a.same(&b));
    assert!(!a.same(&CacheKey::member("LResult;", "tag", "I")));
    assert!(!a.same(&CacheKey::class("LResult;")));
    assert!(CacheKey::class("LResult;").same(&CacheKey::member("LResult;", "", "")));
}

#[test]
fn new_cache_is_empty() {
    let cache = MetadataCache::new();
    assert_eq!(cache.classes.len(), 0);
    assert_eq!(cache.methods.len(), 0);
    assert_eq!(cache.static_methods.len(), 0);
    assert_eq!(cache.fields.len(), 0);
    assert_eq!(cache.static_fields.len(), 0);
    assert!(cache.classes.get(&CacheKey::class("Ljava/lang/String;")).is_none());
    assert!(cache.methods.get(&CacheKey::member("Ljava/util/ArrayList;", "<init>", "(I)V")).is_none());
    assert!(cache.fields.get(&CacheKey::member("LResult;", "tag", "B")).is_none());
}

#[test]
fn null_reference_is_told_from_an_object() {
    let null = jni::objects::JObject::null();
    assert!(nullable(null).is_none());
    let made = reference_of(None);
    assert!(made.is_null());
    assert!(nullable(made).is_none());
    assert!(reference_of(Some(null)).is_null());
}

#[test]
fn list_capacity_is_the_length_or_the_largest() {
    assert_eq!(list_capacity(0), 0);
    assert_eq!(list_capacity(3), 3);
    assert_eq!(list_capacity(i32::MAX as usize), i32::MAX);
    assert_eq!(list_capacity(i32::MAX as usize + 1), i32::MAX);
    assert_eq!(list_capacity(usize::MAX), i32::MAX);
}
