use findsame::hexcode::decode_fingerprint;
use findsame::intersect::and_array;
use findsame::judge::same;
use findsame::record::derive_color;

fn decode(s: &str) -> Vec<u8> {
    decode_fingerprint(s).expect("valid fingerprint text")
}

fn color_f32(fp: &str) -> [f32; 3] {
    let bytes = decode(fp);
    let c = derive_color(&bytes);
    let mag: f32 = 255.0 * 64.0;
    [c.r as f32 / mag, c.g as f32 / mag, c.b as f32 / mag]
}

#[test]
fn test_same() {
    let fp1 = "8d7451917955937b59856c546d584660584852514443443a9582649e896aa1896e9f7c699173687e858668787e5055559a8c77a89079ac8b76af8575a68a83a0b0ba8ba5b5666f779c8e7eb08a75b68572bb8c7fb28a82a39592929a9b7d858895897baa8572b17b65c28b78bb897da98a849f9d9d959a9f74746f8a796ea17360b87c69b67f70a27b75908d9289919a42494e5f5a5b936e698d5f588c5f59976d6e77707d58657719202e4f46518d73814d414f43364281616c7a63763a3c55";
    let fp = decode(fp1);
    assert!(same(&fp, &fp));
}

#[test]
fn test_and_array() {
    let a1 = vec![1, 2, 5, 9, 10, 11, 12];
    let a2 = vec![2, 6, 10, 12, 15];
    assert_eq!(and_array(&a1, &a2), vec![2, 10, 12]);
    let a3 = vec![1, 2, 3];
    let a4 = vec![1, 3];
    assert_eq!(and_array(&a3, &a4), vec![1, 3]);
    let a5 = vec![1, 3];
    let a6 = vec![1, 2, 3];
    assert_eq!(and_array(&a5, &a6), vec![1, 3]);
}

#[test]
fn test_to_color() {
    let fp = "ffffffffffffffffffffffffffffffffffffffffffffffffffffffffffffffffffffffffffffffffffffffffffffffffffffffffffffffffffffffffffffffffffffffffffffffffffffffffffffffffffffffffffffffffffffffffffffffff000000000000000000000000000000000000000000000000000000000000000000000000000000000000000000000000000000000000000000000000000000000000000000000000000000000000000000000000000000000000000000000000";
    assert_eq!(color_f32(&fp), [0.5, 0.5, 0.5]);
    let fp2 = "ffffffffffffffffffffffff7f7f007f7f007f7f007f7f00ffffffffffffffffffffffff7f7f007f7f007f7f007f7f00ffffffffffffffffffffffff7f7f007f7f007f7f007f7f00ffffffffffffffffffffffff7f7f007f7f007f7f007f7f00007f7f007f7f007f7f007f7f000000000000000000000000007f7f007f7f007f7f007f7f000000000000000000000000007f7f007f7f007f7f007f7f000000000000000000000000007f7f007f7f007f7f007f7f000000000000000000000000";
    assert_eq!(color_f32(&fp2), [0.3745098, 0.4990196, 0.3745098]);
    let fp3 = "d8a486d39e80a8775c744d3967422d6f412593582da26331dba688d5a081ae7b5e9c6b52845741582f1a7e47239b5e2ed39c7ad39b7ad39b7ad2997ab582678e5f468e593591562a936e56a37961daa587f0bc9de9b698c1917583594054331c4b44416d5a52c1937deaba9df1c0a1c0917473503c2e211a423f3e695751916d5dc39982f3c2a3e1af8fa2785d4b372a3d393868544c634c42957563e2b095e7b498cc9a7d845e482e26235e483f4b39326f584aa27e6ba5806ca47d687b5744";
    assert_eq!(color_f32(&fp3), [0.6082108, 0.4483456, 0.3550858]);
    let fp4 = "b29895b58979b87e63ba8266b98268b27a609e654d7c4b3cb38270b7826ebf846bbe856cbb846ab27a609a614c6e3e32b17257b87962c88f79c18b75b9836caa715a8e57465a2c23a56c59b6806fc58e7dbf8674bb85729f6452723d30491f158d503c955746a06354a16557ae736390564760342a502a1f8852408e513e965c4d8c5f599b685ea36b5c9d6f609065567255569261529f6b5b9874739e7871b78776cb9884be8c7896776bab7c63a06d5a9a767294726eb38779cf9e89c1907b";
    assert_eq!(color_f32(&fp4), [0.6319853, 0.43186274, 0.365625]);

    // id = 7811
    let fp5 = "8d7451917955937b59856c546d584660584852514443443a9582649e896aa1896e9f7c699173687e858668787e5055559a8c77a89079ac8b76af8575a68a83a0b0ba8ba5b5666f779c8e7eb08a75b68572bb8c7fb28a82a39592929a9b7d858895897baa8572b17b65c28b78bb897da98a849f9d9d959a9f74746f8a796ea17360b87c69b67f70a27b75908d9289919a42494e5f5a5b936e698d5f588c5f59976d6e77707d58657719202e4f46518d73814d414f43364281616c7a63763a3c55";
    assert_eq!(color_f32(&fp5), [0.5376226, 0.46286765, 0.43621323]);
    // id = 420670
    let fp6 = "8d7550927955947b59866d546d584660584852514443443a9582659e8a6ba18a6e9f7c6a9173687e868669797f5055559b8d78a99179ac8c77af8575a78a83a1b0bb8ca6b66770779d8e7eb18b76b68572bb8d80b38a82a49692939a9b7e858996897caa8572b27b66c38b79bc8a7da98a85a09d9e969ba07574708a7a6ea17460b97d69b67f71a27b75918e938a929a42494e5f5a5b946e698d5f588d5f5a986e6e77707e586577181f2e4f45528d73814d404f42364281616d7b6477393c55";
    assert_eq!(color_f32(&fp6), [0.53927696, 0.46409315, 0.43768382]);
}
