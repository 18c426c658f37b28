use android_readout::error::ReadoutError;
use android_readout::kernel::{AndroidKernelReadout, KernelInfo};
use android_readout::product::{
    AndroidProductReadout, PropertyStore, FAMILY_KEY, PRODUCT_KEY, VENDOR_KEY,
};

fn failed() -> ReadoutError {
    ReadoutError::Other("getprop failed".to_string())
}

#[test]
fn the_keys_are_the_canonical_ones() {
    assert_eq!(VENDOR_KEY, "ro.product.brand");
    assert_eq!(FAMILY_KEY, "ro.product.model");
    assert_eq!(PRODUCT_KEY, "ro.build.product");
}

#[test]
fn a_store_gives_what_was_set() {
    let mut store = PropertyStore::new();
    assert_eq!(store.get("ro.product.brand"), None);
    store.set("ro.product.brand", "google");
    store.set("ro.product.model", "Pixel 7");
    assert_eq!(store.get("ro.product.brand"), Some("google".to_string()));
    assert_eq!(store.get("ro.product.model"), Some("Pixel 7".to_string()));
    assert_eq!(store.get("ro.product"), None);
    store.set("ro.product.brand", "Google");
    assert_eq!(store.get("ro.product.brand"), Some("Google".to_string()));
    assert_eq!(store.get("ro.product.model"), Some("Pixel 7".to_string()));
}

#[test]
fn each_fact_reads_its_own_key() {
    let product = AndroidProductReadout::new();
    let mut store = PropertyStore::new();
    store.set("ro.product.brand", "google");
    store.set("ro.product.model", "Pixel 7");
    store.set("ro.build.product", "panther");
    store.set("ro.product.manufacturer", "Google Inc");
    store.set("ro.product.device", "other");
    assert_eq!(product.vendor(&store), Ok("google".to_string()));
    assert_eq!(product.family(&store), Ok("Pixel 7".to_string()));
    assert_eq!(product.product(&store), Ok("panther".to_string()));
    assert_eq!(AndroidProductReadout::query(&store, "ro.product.device"), Ok("other".to_string()));
}

#[test]
fn a_missing_key_fails_without_a_fallback() {
    let product = AndroidProductReadout::new();
    let mut store = PropertyStore::new();
    store.set("ro.product.manufacturer", "Google Inc");
    store.set("ro.product.vendor.model", "Pixel 7");
    store.set("ro.product.device", "panther");
    assert_eq!(product.vendor(&store), Err(failed()));
    assert_eq!(product.family(&store), Err(failed()));
    assert_eq!(product.product(&store), Err(failed()));
    assert_eq!(AndroidProductReadout::query(&PropertyStore::new(), "x"), Err(failed()));
}

#[test]
fn an_empty_value_is_a_value() {
    let product = AndroidProductReadout::new();
    let mut store = PropertyStore::new();
    store.set("ro.product.brand", "");
    assert_eq!(product.vendor(&store), Ok(String::new()));
}

#[test]
fn the_kernel_is_read_from_its_snapshot() {
    let kernel = AndroidKernelReadout::new(Some(KernelInfo {
        os_type: "Linux".to_string(),
        os_release: "5.10.101-android12-9".to_string(),
    }));
    assert_eq!(kernel.os_type(), Ok("Linux".to_string()));
    assert_eq!(kernel.os_release(), Ok("5.10.101-android12-9".to_string()));
    assert_eq!(kernel.os_release(), Ok("5.10.101-android12-9".to_string()));
}

#[test]
fn a_failed_identification_fails_both_accessors() {
    let kernel = AndroidKernelReadout::new(None);
    assert_eq!(kernel.os_type(), Err(ReadoutError::SyscallFailure));
    assert_eq!(kernel.os_release(), Err(ReadoutError::SyscallFailure));
    assert_eq!(kernel.os_type(), Err(ReadoutError::SyscallFailure));
}
