use deliriuum::config::parse;

const KEY_A: &str = "AQEBAQEBAQEBAQEBAQEBAQEBAQEBAQEBAQEBAQEBAQE=";
const KEY_B: &str = "AgICAgICAgICAgICAgICAgICAgICAgICAgICAgICAgI=";

fn sample() -> String {
    format!(
        "[Interface]\nPrivateKey = {KEY_A}\nAddress = 10.8.0.2/32, fd00::2/128\nDNS = 1.1.1.1, 9.9.9.9\n\n[Peer]\nPublicKey = {KEY_B}\nAllowedIPs = 0.0.0.0/0, ::/0\nEndpoint = node1.deliriuum.com:51820\nPersistentKeepalive = 15\n"
    )
}

#[test]
fn parses_a_complete_configuration() {
    let c = parse(&sample()).unwrap();
    assert_eq!(c.private_key, [1u8; 32]);
    assert_eq!(c.peer_public_key, [2u8; 32]);
    assert_eq!(c.address, "10.8.0.2/32");
    assert_eq!(c.dns, vec!["1.1.1.1".to_string(), "9.9.9.9".to_string()]);
    assert_eq!(c.endpoint, "node1.deliriuum.com:51820");
    assert_eq!(c.allowed_ips, vec!["0.0.0.0/0".to_string(), "::/0".to_string()]);
    assert_eq!(c.keepalive, 15);
}

#[test]
fn keys_are_case_insensitive_and_keepalive_defaults() {
    let text = format!("privatekey={KEY_A}\nPUBLICKEY = {KEY_B}\naddress = 10.0.0.1\nendpoint = 1.2.3.4:51820\n");
    let c = parse(&text).unwrap();
    assert_eq!(c.keepalive, 25);
    assert!(c.dns.is_empty());
    assert!(c.allowed_ips.is_empty());
    assert_eq!(c.address, "10.0.0.1");
}

#[test]
fn unreadable_keepalive_falls_back_to_default() {
    let text = format!("PrivateKey = {KEY_A}\nPublicKey = {KEY_B}\nAddress = 10.0.0.1\nEndpoint = 1.2.3.4:51820\nPersistentKeepalive = often\n");
    assert_eq!(parse(&text).unwrap().keepalive, 25);
}

#[test]
fn invalid_key_is_refused() {
    let text = format!("PrivateKey = not-a-key\nPublicKey = {KEY_B}\nAddress = 10.0.0.1\nEndpoint = 1.2.3.4:51820\n");
    assert_eq!(parse(&text).err().unwrap(), "ClÃ© WireGuard invalide.");
}

#[test]
fn short_key_is_refused() {
    let text = format!("PrivateKey = AQID\nPublicKey = {KEY_B}\nAddress = 10.0.0.1\nEndpoint = 1.2.3.4:51820\n");
    assert_eq!(parse(&text).err().unwrap(), "ClÃ© WireGuard invalide.");
}

#[test]
fn missing_private_key_is_refused() {
    let text = format!("PublicKey = {KEY_B}\nAddress = 10.0.0.1\nEndpoint = 1.2.3.4:51820\n");
    assert_eq!(parse(&text).err().unwrap(), "ClÃ© privÃ©e absente de la configuration.");
}

#[test]
fn missing_peer_key_is_refused() {
    let text = format!("PrivateKey = {KEY_A}\nAddress = 10.0.0.1\nEndpoint = 1.2.3.4:51820\n");
    assert_eq!(parse(&text).err().unwrap(), "ClÃ© du serveur absente de la configuration.");
}

#[test]
fn missing_address_is_refused() {
    let text = format!("PrivateKey = {KEY_A}\nPublicKey = {KEY_B}\nEndpoint = 1.2.3.4:51820\n");
    assert_eq!(parse(&text).err().unwrap(), "Adresse du tunnel absente.");
}

#[test]
fn missing_endpoint_is_refused() {
    let text = format!("PrivateKey = {KEY_A}\nPublicKey = {KEY_B}\nAddress = 10.0.0.1\n");
    assert_eq!(parse(&text).err().unwrap(), "Adresse du serveur absente.");
}

#[test]
fn lines_without_equals_and_unknown_keys_are_ignored() {
    let text = format!("# comment\n[Interface]\nMTU = 1420\nPrivateKey = {KEY_A}\r\nPublicKey = {KEY_B}\nAddress = 10.0.0.1\nEndpoint = 1.2.3.4:51820");
    let c = parse(&text).unwrap();
    assert_eq!(c.private_key, [1u8; 32]);
    assert_eq!(c.endpoint, "1.2.3.4:51820");
}
