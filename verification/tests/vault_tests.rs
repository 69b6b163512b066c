use rdpm::dpapi::{decrypt_bytes, encrypt_bytes};
use rdpm::vault::{CredentialItem, CredentialVault};

#[test]
fn test_dpapi_roundtrip() {
    let raw_secret = b"MyStrongPassword!#@123";
    let encrypted = encrypt_bytes(raw_secret);
    assert_ne!(raw_secret.as_slice(), encrypted.as_slice());

    let decrypted = decrypt_bytes(&encrypted);
    assert_eq!(raw_secret.as_slice(), decrypted.as_slice());
}

#[test]
fn masking_changes_every_byte() {
    let data: Vec<u8> = (0..=255).collect();
    let enc = encrypt_bytes(&data);
    assert!(enc.iter().zip(&data).all(|(a, b)| a != b));
    assert_eq!(enc[0], 0x5A);
    assert!(encrypt_bytes(&[]).is_empty());
}

#[test]
fn vault_insert_get_remove() {
    let mut vault = CredentialVault::new();
    let item = CredentialItem::new("测试账号", "admin", "P@ssw0rd123");
    let item_id = item.id.clone();
    vault.insert(item);

    let loaded = vault.get(&item_id).expect("应当能找到保存的凭据");
    assert_eq!(loaded.name, "测试账号");
    assert_eq!(loaded.username, "admin");
    assert_eq!(loaded.password.expose(), "P@ssw0rd123");
    assert_eq!(vault.list().len(), 1);

    let mut replacement = CredentialItem::new("新名称", "root", "x");
    replacement.id = item_id.clone();
    vault.insert(replacement);
    assert_eq!(vault.list().len(), 1);
    assert_eq!(vault.get(&item_id).unwrap().username, "root");

    let removed = vault.remove(&item_id).unwrap();
    assert_eq!(removed.password.expose(), "x");
    assert!(vault.get(&item_id).is_none());
    assert!(vault.remove(&item_id).is_none());
    assert!(vault.list().is_empty());
}

#[test]
fn credential_clone_keeps_password() {
    let item = CredentialItem::new("n", "u", "secret");
    let c = item.clone();
    assert_eq!(c.password.expose(), "secret");
    assert_eq!(c, item);
}
