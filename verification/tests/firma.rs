use base64::Engine;
use rubrica::keystore::{parse_pkcs12, Identity};
use rubrica::{cades, pades};

const P12: &[u8] = &[
    0x30, 0x82, 0x09, 0x71, 0x02, 0x01, 0x03, 0x30, 0x82, 0x09, 0x37, 0x06, 0x09, 0x2a, 0x86, 0x48, 0x86, 0xf7, 0x0d, 0x01,
    0x07, 0x01, 0xa0, 0x82, 0x09, 0x28, 0x04, 0x82, 0x09, 0x24, 0x30, 0x82, 0x09, 0x20, 0x30, 0x82, 0x03, 0xd7, 0x06, 0x09,
    0x2a, 0x86, 0x48, 0x86, 0xf7, 0x0d, 0x01, 0x07, 0x06, 0xa0, 0x82, 0x03, 0xc8, 0x30, 0x82, 0x03, 0xc4, 0x02, 0x01, 0x00,
    0x30, 0x82, 0x03, 0xbd, 0x06, 0x09, 0x2a, 0x86, 0x48, 0x86, 0xf7, 0x0d, 0x01, 0x07, 0x01, 0x30, 0x1c, 0x06, 0x0a, 0x2a,
    0x86, 0x48, 0x86, 0xf7, 0x0d, 0x01, 0x0c, 0x01, 0x03, 0x30, 0x0e, 0x04, 0x08, 0xd4, 0x63, 0x3f, 0x44, 0xa1, 0x7f, 0xf9,
    0x26, 0x02, 0x02, 0x08, 0x00, 0x80, 0x82, 0x03, 0x90, 0xb2, 0x00, 0x30, 0x55, 0x33, 0xb1, 0xef, 0xb0, 0xd6, 0x41, 0x38,
    0xce, 0xc5, 0xaa, 0x1b, 0x37, 0x2f, 0x67, 0x41, 0xac, 0xd9, 0xd4, 0xc1, 0x93, 0x92, 0xab, 0x18, 0x36, 0xf8, 0x42, 0x2d,
    0xa0, 0x66, 0x9d, 0x95, 0xf9, 0x94, 0x74, 0xde, 0xda, 0x7a, 0x68, 0x48, 0xf4, 0xdd, 0xb7, 0x08, 0x61, 0x6d, 0x0f, 0x06,
    0xf7, 0x29, 0x94, 0xef, 0xa1, 0xd5, 0x3e, 0xf7, 0xcb, 0x6a, 0x6c, 0x9c, 0x54, 0x56, 0x44, 0x22, 0x1a, 0xd5, 0x6a, 0x15,
    0xb0, 0x29, 0x09, 0x29, 0xce, 0x80, 0xf2, 0x32, 0x5d, 0xa1, 0x84, 0x50, 0x93, 0x99, 0x3f, 0x81, 0x2a, 0x6d, 0x0e, 0x37,
    0x73, 0x46, 0x84, 0xe6, 0x06, 0xc0, 0xe1, 0xfa, 0x07, 0x55, 0xbe, 0x77, 0xb2, 0x12, 0xd4, 0x6a, 0x4e, 0x82, 0x65, 0xa9,
    0x46, 0xc6, 0x4c, 0xad, 0xab, 0x84, 0x19, 0x35, 0xd3, 0xe7, 0x6b, 0xe7, 0xf6, 0x9d, 0xe8, 0x5b, 0x08, 0xc0, 0xba, 0x2c,
    0xbd, 0x46, 0xbc, 0x1e, 0x96, 0x82, 0xe7, 0x1e, 0x07, 0x2f, 0x0d, 0xdd, 0xc0, 0x4a, 0xa6, 0x50, 0xbf, 0x94, 0xbe, 0x79,
    0xf2, 0xc6, 0x7d, 0x7b, 0x83, 0xeb, 0x3f, 0xd6, 0x8e, 0x30, 0xd8, 0x52, 0xa6, 0x6d, 0x00, 0x5a, 0x43, 0xed, 0x0c, 0xad,
    0xb7, 0xea, 0xe9, 0xa5, 0xc3, 0x6e, 0x4f, 0x7e, 0x6f, 0xd9, 0x79, 0x08, 0x7b, 0xe5, 0x5c, 0x7c, 0x95, 0xab, 0x6e, 0xb2,
    0x40, 0x08, 0x2e, 0x52, 0xb2, 0x79, 0x06, 0xba, 0x0b, 0x80, 0xd4, 0x02, 0xd6, 0xbc, 0x00, 0x64, 0xeb, 0xe8, 0x7d, 0x85,
    0xe0, 0xcf, 0x31, 0x9b, 0x09, 0x5c, 0xfa, 0x4d, 0x2e, 0xe6, 0x80, 0x4f, 0x62, 0xa1, 0x6d, 0xa3, 0x9a, 0x50, 0xaf, 0xd3,
    0x08, 0x07, 0xcc, 0xd3, 0xbe, 0xdc, 0xb6, 0xb2, 0x6a, 0x19, 0x77, 0xf2, 0x69, 0x1c, 0x18, 0xd9, 0x92, 0x61, 0x12, 0xf9,
    0xd2, 0x60, 0xbd, 0x3b, 0x8a, 0xbd, 0x6c, 0xd8, 0xbf, 0xf0, 0xd8, 0x6d, 0xc3, 0x9b, 0x9b, 0xb8, 0x8a, 0x63, 0x29, 0x7a,
    0x6f, 0x90, 0x2e, 0xf7, 0x40, 0x37, 0xef, 0x25, 0x33, 0x50, 0xaa, 0x57, 0xc3, 0x39, 0x1a, 0xa6, 0xe7, 0x04, 0x9b, 0xd8,
    0x9e, 0x75, 0x54, 0x75, 0x5c, 0xa5, 0x4d, 0xac, 0xe6, 0xef, 0xac, 0xec, 0x55, 0x91, 0x7f, 0x52, 0xe9, 0x2a, 0xc4, 0x75,
    0x11, 0xf2, 0x9a, 0x84, 0x4b, 0x49, 0x18, 0x44, 0x8d, 0xe9, 0x6f, 0x6c, 0x11, 0xe8, 0xa4, 0xe9, 0x84, 0x10, 0x41, 0x3c,
    0x10, 0x61, 0xb7, 0x46, 0x1c, 0x7d, 0x05, 0x66, 0xf5, 0x06, 0x48, 0xdc, 0x57, 0x43, 0xda, 0x6b, 0xd3, 0x6d, 0x1f, 0x65,
    0x4b, 0x94, 0xc0, 0x7c, 0xe2, 0xe5, 0x18, 0x5f, 0xe6, 0x7d, 0xd8, 0xff, 0xa0, 0x6e, 0x3c, 0xf4, 0x59, 0x63, 0xdb, 0x9c,
    0xb8, 0x7f, 0x79, 0x6d, 0x9a, 0x0b, 0xfd, 0xb0, 0x67, 0x70, 0x40, 0x61, 0x64, 0x30, 0xae, 0x20, 0x58, 0x67, 0x64, 0xc7,
    0x45, 0x7e, 0x71, 0xe7, 0x5c, 0xd6, 0x5b, 0x5b, 0xdf, 0x92, 0xcd, 0xea, 0x39, 0x64, 0x73, 0x41, 0x88, 0x17, 0x9a, 0x19,
    0xbe, 0xe4, 0xfa, 0xfd, 0x26, 0x17, 0x90, 0x0f, 0xa1, 0x1a, 0x74, 0x51, 0xd3, 0x7a, 0x06, 0x0d, 0x69, 0xe1, 0xf7, 0x87,
    0x20, 0x6c, 0xb8, 0x72, 0x42, 0x69, 0xc8, 0xbf, 0x7d, 0x4f, 0x63, 0xe8, 0x4b, 0x7b, 0x69, 0xff, 0x98, 0x8d, 0xc2, 0xb2,
    0x5e, 0xb7, 0x3e, 0x95, 0x8b, 0xbe, 0x07, 0x22, 0xdb, 0x46, 0x95, 0x96, 0xcd, 0xbc, 0xbc, 0xed, 0x8f, 0x79, 0xfe, 0xcc,
    0x3b, 0xa9, 0xdd, 0xcd, 0x57, 0x54, 0x17, 0xbe, 0x2e, 0x01, 0x1f, 0xd1, 0xa1, 0x5a, 0xb2, 0x28, 0xea, 0xbd, 0x04, 0xcc,
    0xaa, 0x46, 0x18, 0x62, 0xd5, 0x3f, 0x95, 0xf3, 0x6a, 0xe7, 0x2d, 0x48, 0x15, 0x30, 0x7a, 0x01, 0x56, 0x81, 0xa6, 0xda,
    0x7c, 0x13, 0x6c, 0x19, 0x70, 0xf4, 0xac, 0x6d, 0x8c, 0xa2, 0x70, 0xe9, 0x9b, 0xc4, 0xff, 0x57, 0xba, 0xd6, 0xe1, 0xe6,
    0xeb, 0x1e, 0xde, 0xab, 0xe1, 0x63, 0xc3, 0xed, 0xb9, 0xc4, 0x9f, 0x1c, 0xd4, 0xad, 0x83, 0x9d, 0x3f, 0x6c, 0x3e, 0x7e,
    0x81, 0xf0, 0x6c, 0x7b, 0x04, 0x5f, 0x03, 0xf4, 0x77, 0x17, 0xdf, 0x31, 0x75, 0x29, 0x81, 0x2b, 0x17, 0xdb, 0xb2, 0x60,
    0xbe, 0xea, 0x2e, 0xdd, 0x2e, 0xe6, 0xe0, 0xab, 0xed, 0x6a, 0xe8, 0xfd, 0xe2, 0xa4, 0x5d, 0xc7, 0xe1, 0x19, 0xc4, 0x52,
    0xac, 0xfc, 0x34, 0x70, 0x64, 0x6e, 0x48, 0x7f, 0x26, 0xda, 0xad, 0x68, 0x0f, 0x8b, 0xd4, 0x3f, 0x5c, 0xb6, 0xef, 0x2c,
    0x91, 0xf5, 0x1c, 0xaf, 0xfd, 0xc3, 0x86, 0x2f, 0xf9, 0x2d, 0xaa, 0xde, 0x13, 0x9b, 0xe9, 0x85, 0x42, 0xde, 0x1e, 0x5b,
    0xb2, 0x6a, 0xca, 0x08, 0xf0, 0xee, 0x0a, 0xda, 0x7e, 0x4d, 0x2e, 0x49, 0x42, 0x33, 0x10, 0x3c, 0xcf, 0x8f, 0x20, 0x21,
    0xa4, 0xa4, 0x37, 0xd2, 0x8c, 0x2d, 0x22, 0xfb, 0xd3, 0x6d, 0x9f, 0xb6, 0xbd, 0x29, 0xaa, 0x63, 0x21, 0xd9, 0x87, 0xc0,
    0x60, 0xf2, 0xa8, 0xb0, 0xb5, 0x52, 0x8a, 0x74, 0xc9, 0x65, 0x01, 0xe0, 0x38, 0x67, 0x95, 0x7c, 0x1f, 0xf7, 0x7c, 0x7f,
    0x4a, 0xba, 0xe9, 0x21, 0xd8, 0x2c, 0x86, 0x99, 0xce, 0x0e, 0x09, 0x46, 0xda, 0x39, 0x96, 0xab, 0xc5, 0xa7, 0x2b, 0xb0,
    0xd4, 0xbe, 0xe6, 0xb3, 0x65, 0xfb, 0x91, 0x36, 0xb5, 0xb8, 0x4e, 0xbd, 0xea, 0xfa, 0x48, 0x3f, 0xb3, 0x21, 0x5c, 0x4b,
    0x41, 0xa1, 0x49, 0xa8, 0xe6, 0x6c, 0x84, 0xea, 0x58, 0xdf, 0x38, 0xe9, 0x3c, 0xda, 0x42, 0xa7, 0x49, 0x8d, 0x9b, 0x9f,
    0xb9, 0x38, 0xdc, 0x48, 0x6a, 0xda, 0x21, 0x82, 0xee, 0x2b, 0xd5, 0xcf, 0x06, 0xe3, 0x62, 0x59, 0x07, 0xe2, 0xa6, 0x0e,
    0xff, 0xcd, 0x33, 0x37, 0xd4, 0x10, 0x96, 0xe2, 0x91, 0xd5, 0x5f, 0x53, 0x10, 0x34, 0xd4, 0x6a, 0xa4, 0xe0, 0xff, 0x16,
    0x4c, 0xfb, 0x85, 0x42, 0x0f, 0xbb, 0xde, 0x2f, 0x63, 0x27, 0x1b, 0x62, 0x33, 0xa5, 0x30, 0xd8, 0xd7, 0x29, 0x5a, 0x5b,
    0x91, 0xb9, 0x66, 0xe9, 0x01, 0x7b, 0xac, 0x1f, 0x7a, 0xeb, 0xf8, 0xb1, 0xbb, 0xc5, 0x5c, 0xff, 0x58, 0x2c, 0x9a, 0xc5,
    0x6b, 0xe4, 0xff, 0x8e, 0x56, 0xc2, 0x06, 0x14, 0x22, 0x49, 0x78, 0x97, 0x29, 0xbf, 0x2b, 0xb1, 0xa4, 0x0a, 0x38, 0x81,
    0xb9, 0xf3, 0x9b, 0x57, 0x5c, 0x39, 0x09, 0xbe, 0xce, 0xce, 0xe6, 0xc6, 0xb0, 0xef, 0x1a, 0x13, 0xd7, 0x15, 0x79, 0xfa,
    0xc6, 0xbd, 0x21, 0x64, 0x4a, 0x78, 0x64, 0x0a, 0xeb, 0x3a, 0xd5, 0xf7, 0xe5, 0xe7, 0x9d, 0xc8, 0x33, 0x0c, 0x20, 0xbd,
    0x59, 0x48, 0x97, 0xae, 0xac, 0x5b, 0x1d, 0xee, 0xab, 0xc5, 0x4a, 0xd9, 0x0b, 0x8c, 0x44, 0x7c, 0x28, 0x3e, 0x42, 0xf8,
    0x9a, 0x30, 0x82, 0x05, 0x41, 0x06, 0x09, 0x2a, 0x86, 0x48, 0x86, 0xf7, 0x0d, 0x01, 0x07, 0x01, 0xa0, 0x82, 0x05, 0x32,
    0x04, 0x82, 0x05, 0x2e, 0x30, 0x82, 0x05, 0x2a, 0x30, 0x82, 0x05, 0x26, 0x06, 0x0b, 0x2a, 0x86, 0x48, 0x86, 0xf7, 0x0d,
    0x01, 0x0c, 0x0a, 0x01, 0x02, 0xa0, 0x82, 0x04, 0xee, 0x30, 0x82, 0x04, 0xea, 0x30, 0x1c, 0x06, 0x0a, 0x2a, 0x86, 0x48,
    0x86, 0xf7, 0x0d, 0x01, 0x0c, 0x01, 0x03, 0x30, 0x0e, 0x04, 0x08, 0x6d, 0x5c, 0x3b, 0x78, 0x3f, 0xc1, 0x17, 0x12, 0x02,
    0x02, 0x08, 0x00, 0x04, 0x82, 0x04, 0xc8, 0xe9, 0x4f, 0x53, 0x19, 0x63, 0x00, 0x79, 0x41, 0x93, 0x2a, 0xd7, 0xd4, 0xbf,
    0xf3, 0xb8, 0x8a, 0x6d, 0xed, 0x5e, 0xdd, 0x86, 0x5d, 0xdf, 0x34, 0x1c, 0xdb, 0xb7, 0x98, 0x01, 0xcf, 0x10, 0x54, 0x5b,
    0x9f, 0x3b, 0xf9, 0x84, 0x29, 0x46, 0xad, 0xc5, 0xf2, 0x83, 0xf6, 0x40, 0x26, 0xaf, 0x2e, 0x45, 0x1a, 0x8c, 0x91, 0x6a,
    0x5a, 0x5e, 0x4f, 0x95, 0x04, 0xf6, 0x1e, 0x33, 0x11, 0xc5, 0xd5, 0x59, 0x74, 0x0d, 0xc7, 0x1d, 0x38, 0x68, 0x16, 0x5a,
    0x41, 0x4c, 0x41, 0x56, 0x5e, 0xbc, 0x91, 0x9b, 0x74, 0xb9, 0x4e, 0xe4, 0xd3, 0x90, 0x3f, 0x72, 0x2a, 0xd6, 0x76, 0xe0,
    0x6f, 0x35, 0x01, 0x00, 0xb5, 0xa7, 0x37, 0x1b, 0xa3, 0x81, 0xe1, 0xc9, 0x2d, 0xdc, 0x4b, 0xbc, 0xa0, 0x03, 0x63, 0x1d,
    0xbb, 0xed, 0x48, 0x8d, 0x61, 0xac, 0x74, 0x85, 0xdc, 0xfb, 0xf3, 0x98, 0xf9, 0xc0, 0xfb, 0xfb, 0x45, 0xd0, 0xc4, 0xa1,
    0x76, 0x99, 0x51, 0x4f, 0xc1, 0xfd, 0x3a, 0x0b, 0xd1, 0xf8, 0x38, 0xf4, 0xd6, 0xe2, 0x6a, 0x09, 0xac, 0x13, 0x92, 0xdd,
    0x0d, 0xf5, 0xd3, 0x85, 0x6e, 0x7b, 0x04, 0x53, 0xd9, 0x2c, 0x68, 0xf8, 0x46, 0x22, 0xda, 0x28, 0x74, 0x80, 0xbf, 0x77,
    0x25, 0xfe, 0x14, 0x3e, 0xfd, 0x7c, 0xcd, 0xca, 0x50, 0xe3, 0x12, 0xb5, 0x53, 0x33, 0x14, 0x49, 0x24, 0x11, 0x86, 0x46,
    0x69, 0x7f, 0xc6, 0x45, 0x5d, 0xea, 0x32, 0x4e, 0xd3, 0x60, 0xe9, 0xc9, 0x51, 0xad, 0x7f, 0xd4, 0x43, 0xc6, 0xe9, 0xcb,
    0x51, 0xa4, 0x9e, 0x89, 0xb2, 0xdb, 0x48, 0x9c, 0x39, 0x5b, 0xa6, 0x38, 0x62, 0xed, 0x2c, 0xf2, 0xd0, 0x62, 0x38, 0xe4,
    0x62, 0xbd, 0x90, 0x37, 0x8c, 0x74, 0x7a, 0xaa, 0xc2, 0x9f, 0x8e, 0xa0, 0xcb, 0xf0, 0x47, 0x9c, 0xa4, 0x7c, 0x4b, 0xc4,
    0x6f, 0x0e, 0x57, 0xb1, 0x6c, 0x94, 0x4b, 0x27, 0x01, 0x0d, 0xdf, 0x8d, 0xfe, 0xe3, 0x2e, 0xb3, 0x27, 0xad, 0x92, 0x72,
    0xfa, 0x7b, 0x81, 0x0e, 0x48, 0xc1, 0xbb, 0x2f, 0x75, 0x1b, 0xc8, 0xa3, 0x8b, 0x71, 0xc0, 0x4d, 0xe1, 0xdc, 0x89, 0xa3,
    0xea, 0x12, 0x6a, 0x7e, 0xd4, 0x59, 0x53, 0xbf, 0xe5, 0xa1, 0x3d, 0xbe, 0xb2, 0x74, 0x45, 0x72, 0x9b, 0xa6, 0x90, 0xd6,
    0xbb, 0xd9, 0x52, 0xf6, 0xed, 0x25, 0x90, 0x8a, 0x0a, 0x75, 0x4f, 0xfa, 0x21, 0x1b, 0x2a, 0x5b, 0x85, 0x61, 0xfe, 0x2d,
    0xcb, 0x41, 0xe9, 0x91, 0x3f, 0x11, 0x46, 0x70, 0x04, 0xe0, 0x53, 0x4c, 0xc6, 0xb8, 0x32, 0xff, 0xf1, 0x95, 0x10, 0xe8,
    0x18, 0xbe, 0x06, 0xee, 0x7a, 0x72, 0xb1, 0x99, 0x96, 0xe5, 0xa1, 0xc7, 0xf1, 0xb1, 0x9e, 0x07, 0xc6, 0x67, 0x60, 0x6a,
    0x0c, 0x22, 0xb8, 0x5d, 0x41, 0xde, 0xbd, 0x0a, 0xb6, 0x7e, 0x70, 0x39, 0x9a, 0xd4, 0x0d, 0xe3, 0x5e, 0x40, 0xc5, 0x53,
    0x60, 0x78, 0xd9, 0x5f, 0x78, 0x10, 0x0b, 0x55, 0xe2, 0xec, 0xbc, 0xc7, 0xcb, 0x11, 0xc2, 0x60, 0xbd, 0xca, 0xd2, 0xaf,
    0xfd, 0x61, 0xe6, 0x63, 0xa2, 0x3c, 0xad, 0x1f, 0x0e, 0x82, 0x19, 0xb8, 0xa2, 0xe8, 0x65, 0x04, 0xe7, 0xb1, 0xf6, 0x5f,
    0x0a, 0xee, 0x5a, 0x04, 0x63, 0x2b, 0x97, 0xe4, 0xfa, 0xf8, 0xcb, 0x70, 0x4c, 0x97, 0xbc, 0x55, 0x24, 0x92, 0xf3, 0x0f,
    0x2d, 0x69, 0x62, 0x2d, 0x98, 0xb4, 0x53, 0xb0, 0xec, 0xea, 0xac, 0x41, 0xd6, 0xaa, 0x74, 0xe9, 0x39, 0x90, 0xa9, 0x89,
    0x14, 0x9f, 0x06, 0x84, 0xf7, 0x03, 0x8a, 0x13, 0x6d, 0x30, 0xb3, 0x31, 0x7a, 0x1d, 0x6a, 0xa0, 0x89, 0x19, 0xf5, 0x6c,
    0xcc, 0x1d, 0x78, 0x16, 0xa0, 0x53, 0x47, 0x88, 0x6e, 0xe1, 0xe5, 0x64, 0x13, 0x71, 0x8d, 0xaf, 0xec, 0x2d, 0xd0, 0xac,
    0x99, 0xd1, 0x38, 0x8e, 0x96, 0x1f, 0x90, 0x48, 0xf8, 0xd8, 0xc3, 0x30, 0xeb, 0x65, 0x35, 0x5c, 0x8c, 0x8d, 0x14, 0x63,
    0xce, 0x82, 0x4a, 0x8e, 0x7d, 0x40, 0xff, 0x3a, 0x71, 0xb4, 0x02, 0x8f, 0x6a, 0x78, 0xdb, 0x49, 0x97, 0x36, 0x0e, 0x9b,
    0x9c, 0x55, 0x70, 0x74, 0x99, 0xaf, 0x88, 0xbe, 0x53, 0xb6, 0x63, 0x7e, 0xa4, 0xe6, 0x07, 0x87, 0x06, 0x04, 0x53, 0x35,
    0x75, 0xe6, 0xde, 0x6a, 0x3c, 0x98, 0xba, 0xea, 0x25, 0x91, 0x8e, 0x30, 0xb7, 0xd2, 0x52, 0x05, 0xcb, 0xdd, 0xc5, 0x52,
    0x10, 0x06, 0x48, 0x32, 0x49, 0xb7, 0x51, 0xbd, 0x13, 0x28, 0x6f, 0x39, 0x94, 0x85, 0x50, 0x18, 0x4f, 0x2c, 0xe0, 0x84,
    0xef, 0x53, 0x5e, 0xca, 0x55, 0x16, 0xc7, 0xdf, 0x00, 0xed, 0x8d, 0x1a, 0xb2, 0xff, 0xe1, 0x1f, 0x88, 0x47, 0x38, 0x05,
    0x69, 0xde, 0x59, 0x3e, 0xb0, 0xbe, 0xb5, 0x21, 0x51, 0x5c, 0xa2, 0xdd, 0x1b, 0xc8, 0x17, 0x63, 0x5b, 0xd6, 0x53, 0x7c,
    0xde, 0xba, 0x6f, 0xf9, 0x07, 0x6a, 0x8f, 0x8e, 0x8f, 0xa5, 0x11, 0x9c, 0x60, 0x53, 0x12, 0x0e, 0xbe, 0xde, 0x32, 0xcc,
    0x95, 0x50, 0x9c, 0x9b, 0x44, 0xd8, 0x56, 0xc8, 0x1f, 0x74, 0x96, 0x9b, 0xc0, 0xc2, 0xfe, 0x10, 0xe8, 0x92, 0x49, 0x15,
    0xda, 0x71, 0x56, 0x4c, 0x16, 0x0e, 0xef, 0x80, 0x25, 0xd8, 0xea, 0xb8, 0xf6, 0xa6, 0xea, 0xa2, 0x4d, 0x10, 0xd8, 0xd4,
    0xa3, 0x5d, 0xc6, 0x85, 0x02, 0x89, 0x79, 0xcb, 0x3f, 0x42, 0xa4, 0xa4, 0x8d, 0x22, 0x60, 0xf1, 0xc9, 0x20, 0xc8, 0x75,
    0x52, 0x20, 0xb4, 0xb5, 0x3c, 0xe0, 0xca, 0x90, 0xc4, 0xba, 0xdc, 0xea, 0xc8, 0xf2, 0x7a, 0x31, 0xa1, 0x6c, 0x3a, 0xde,
    0xb5, 0x77, 0xb6, 0x7c, 0xc2, 0x0f, 0x05, 0xaf, 0xbb, 0x94, 0x1c, 0xc4, 0xd8, 0x41, 0x06, 0x81, 0x08, 0x25, 0x73, 0x18,
    0x28, 0xd0, 0x1d, 0x29, 0x60, 0x8f, 0x0c, 0xa8, 0x52, 0x9a, 0x1e, 0x3e, 0xeb, 0x2d, 0xf8, 0xe7, 0x1c, 0xcd, 0x1f, 0x02,
    0x78, 0x09, 0x11, 0xb4, 0x31, 0x99, 0x93, 0x46, 0xc8, 0x46, 0xa4, 0xa6, 0xb1, 0xf2, 0x42, 0xbf, 0x84, 0x48, 0x07, 0xd6,
    0xa0, 0x67, 0x54, 0x83, 0xd0, 0x24, 0x87, 0xcb, 0xa3, 0xca, 0xc1, 0xff, 0x6d, 0xc7, 0x78, 0xfd, 0xa2, 0xa0, 0xe5, 0xa3,
    0x03, 0x0e, 0x20, 0x62, 0xcc, 0x2e, 0x99, 0x8c, 0x80, 0x8a, 0x87, 0x45, 0xa7, 0xa6, 0x46, 0x71, 0x34, 0x8e, 0xcc, 0xdc,
    0xfe, 0x32, 0x41, 0x3b, 0xb7, 0xf1, 0x0d, 0x9a, 0x44, 0xa2, 0xac, 0x5c, 0x4b, 0x86, 0xec, 0xd4, 0x18, 0x5f, 0x4c, 0x06,
    0xbe, 0xc9, 0x4d, 0xb8, 0x50, 0xc0, 0x64, 0x44, 0xbf, 0x8a, 0x2e, 0x68, 0xc8, 0x97, 0xe4, 0xd7, 0xb7, 0x55, 0xb1, 0x8b,
    0x64, 0x4a, 0xc1, 0x1f, 0x83, 0x70, 0x12, 0x67, 0x15, 0x14, 0x65, 0x4a, 0x7c, 0x80, 0x46, 0x06, 0x6b, 0x1d, 0x97, 0xc5,
    0x5f, 0x38, 0x2b, 0x50, 0x27, 0x19, 0x5f, 0xbe, 0xca, 0xc1, 0x86, 0x97, 0x4b, 0xbe, 0x94, 0x66, 0xa8, 0xf0, 0x52, 0xc3,
    0xaa, 0x96, 0xff, 0x00, 0xcd, 0x16, 0x85, 0xb0, 0xcc, 0xfb, 0x42, 0x26, 0x99, 0x2f, 0x26, 0x3c, 0x6e, 0x7c, 0x99, 0x7f,
    0xb2, 0x57, 0x6a, 0xd0, 0x4c, 0xb0, 0xb9, 0x09, 0x1a, 0xea, 0xf9, 0x9e, 0xa5, 0x8f, 0x70, 0xbe, 0x31, 0x76, 0xf0, 0x6b,
    0x42, 0xda, 0xf7, 0x71, 0x1a, 0xd3, 0xd3, 0x24, 0x98, 0xc8, 0x7b, 0x9d, 0xbd, 0x9b, 0xb9, 0x7f, 0x98, 0x1d, 0x95, 0x79,
    0x3e, 0x3e, 0xf6, 0xe2, 0xaa, 0xf0, 0x96, 0x76, 0x65, 0x47, 0x06, 0xc6, 0x87, 0x61, 0x7d, 0x67, 0xfd, 0xe2, 0x2d, 0x36,
    0x6d, 0x93, 0x1b, 0xf7, 0x21, 0xa8, 0x41, 0x31, 0x8f, 0x3b, 0x27, 0x70, 0x2f, 0x28, 0x75, 0x4c, 0xb9, 0xfd, 0x33, 0x75,
    0xae, 0x13, 0xb4, 0x4f, 0x16, 0x00, 0x33, 0x38, 0xf9, 0xaa, 0x3e, 0x65, 0xba, 0x53, 0x79, 0x5e, 0x17, 0xac, 0xb5, 0xcd,
    0xa0, 0xf0, 0x18, 0x76, 0x28, 0xd6, 0xf9, 0x91, 0x1a, 0x06, 0x52, 0xda, 0x07, 0x17, 0x80, 0x6e, 0x11, 0xe1, 0x21, 0x0f,
    0x4d, 0x94, 0x5f, 0x1c, 0x54, 0xde, 0x43, 0x42, 0x18, 0x2a, 0xae, 0xd1, 0x6a, 0x55, 0x85, 0x4c, 0xd6, 0x38, 0xb0, 0x34,
    0x96, 0x9c, 0x6c, 0xe6, 0xeb, 0xf3, 0x7e, 0xf3, 0xe3, 0x3c, 0xe6, 0x5a, 0x6e, 0x3a, 0x68, 0x06, 0x91, 0xba, 0xd0, 0xa8,
    0xc5, 0xe5, 0x6b, 0x7f, 0x5d, 0xd4, 0xca, 0x19, 0xfc, 0x94, 0xb2, 0xb7, 0x37, 0xa1, 0x0d, 0x53, 0x1a, 0x70, 0x45, 0x3f,
    0x9f, 0x65, 0x62, 0xb1, 0xb2, 0xd8, 0x83, 0x00, 0xb9, 0xeb, 0xf7, 0xea, 0x8e, 0x8c, 0x1a, 0x2a, 0xb3, 0xb4, 0x32, 0xa0,
    0xe9, 0xaf, 0x1d, 0x9e, 0x0a, 0xe9, 0xe3, 0xfa, 0xec, 0x32, 0xdd, 0x1a, 0xbe, 0x73, 0x4f, 0x83, 0x19, 0x16, 0x96, 0xd7,
    0xb7, 0x9a, 0xe9, 0xa1, 0x68, 0x08, 0xcc, 0xed, 0xcf, 0xa9, 0xf2, 0x67, 0x48, 0x13, 0xcc, 0x5a, 0xeb, 0x5a, 0x00, 0x2d,
    0xad, 0x4e, 0x66, 0x3f, 0x72, 0x55, 0x48, 0x0e, 0xe1, 0xec, 0xa5, 0x9b, 0xf4, 0x2c, 0xe3, 0x5b, 0xd8, 0xa0, 0x5b, 0x87,
    0x5b, 0x70, 0x68, 0x25, 0xc3, 0x28, 0x64, 0xff, 0x53, 0x0c, 0xb4, 0x31, 0x25, 0x30, 0x23, 0x06, 0x09, 0x2a, 0x86, 0x48,
    0x86, 0xf7, 0x0d, 0x01, 0x09, 0x15, 0x31, 0x16, 0x04, 0x14, 0x84, 0xb6, 0xe3, 0x2c, 0x45, 0x71, 0x0d, 0xec, 0x2b, 0x9a,
    0xc6, 0xda, 0x66, 0x35, 0x43, 0xda, 0xa2, 0x6a, 0x65, 0x44, 0x30, 0x31, 0x30, 0x21, 0x30, 0x09, 0x06, 0x05, 0x2b, 0x0e,
    0x03, 0x02, 0x1a, 0x05, 0x00, 0x04, 0x14, 0x95, 0x55, 0x06, 0x57, 0xed, 0xba, 0x59, 0x6d, 0x06, 0xfe, 0x74, 0x06, 0x64,
    0xb4, 0xcc, 0xdc, 0xcd, 0x54, 0xa2, 0x7e, 0x04, 0x08, 0xf4, 0xca, 0x36, 0x0b, 0x16, 0xd1, 0x67, 0xfa, 0x02, 0x02, 0x08,
    0x00,
];

const P12_MODERN: &[u8] = &[
    0x30, 0x82, 0x09, 0xef, 0x02, 0x01, 0x03, 0x30, 0x82, 0x09, 0xa5, 0x06, 0x09, 0x2a, 0x86, 0x48, 0x86, 0xf7, 0x0d, 0x01,
    0x07, 0x01, 0xa0, 0x82, 0x09, 0x96, 0x04, 0x82, 0x09, 0x92, 0x30, 0x82, 0x09, 0x8e, 0x30, 0x82, 0x03, 0xfa, 0x06, 0x09,
    0x2a, 0x86, 0x48, 0x86, 0xf7, 0x0d, 0x01, 0x07, 0x06, 0xa0, 0x82, 0x03, 0xeb, 0x30, 0x82, 0x03, 0xe7, 0x02, 0x01, 0x00,
    0x30, 0x82, 0x03, 0xe0, 0x06, 0x09, 0x2a, 0x86, 0x48, 0x86, 0xf7, 0x0d, 0x01, 0x07, 0x01, 0x30, 0x5f, 0x06, 0x09, 0x2a,
    0x86, 0x48, 0x86, 0xf7, 0x0d, 0x01, 0x05, 0x0d, 0x30, 0x52, 0x30, 0x31, 0x06, 0x09, 0x2a, 0x86, 0x48, 0x86, 0xf7, 0x0d,
    0x01, 0x05, 0x0c, 0x30, 0x24, 0x04, 0x10, 0xe2, 0x15, 0x32, 0x3e, 0xef, 0x4e, 0xdb, 0x75, 0xdc, 0x81, 0x82, 0x6c, 0xcc,
    0x4b, 0x07, 0x2e, 0x02, 0x02, 0x08, 0x00, 0x30, 0x0c, 0x06, 0x08, 0x2a, 0x86, 0x48, 0x86, 0xf7, 0x0d, 0x02, 0x09, 0x05,
    0x00, 0x30, 0x1d, 0x06, 0x09, 0x60, 0x86, 0x48, 0x01, 0x65, 0x03, 0x04, 0x01, 0x2a, 0x04, 0x10, 0xb4, 0x65, 0x55, 0xd4,
    0x84, 0x0b, 0xa3, 0x1d, 0x6b, 0xb8, 0x0f, 0xe5, 0x64, 0x6b, 0x01, 0x9f, 0x80, 0x82, 0x03, 0x70, 0xc8, 0xe5, 0xa0, 0xbe,
    0x3c, 0x3a, 0x6d, 0x4a, 0x0a, 0xfa, 0xcc, 0x98, 0xbe, 0xa9, 0xad, 0x33, 0x02, 0x24, 0xfb, 0x67, 0x09, 0xb5, 0x30, 0x33,
    0xd9, 0x86, 0x10, 0x1e, 0xb1, 0xec, 0x70, 0xff, 0x0d, 0x54, 0x60, 0x2e, 0xf0, 0xbf, 0x55, 0x14, 0xa3, 0xdd, 0xe4, 0x63,
    0x5c, 0xa2, 0xb1, 0x9a, 0x21, 0x02, 0xa5, 0x31, 0x83, 0x30, 0x1e, 0x3d, 0x9f, 0xa5, 0xf3, 0x4d, 0x3f, 0x6e, 0x8a, 0xc1,
    0x05, 0x76, 0xf9, 0x4f, 0x65, 0x33, 0xda, 0x32, 0xd7, 0xa5, 0xa7, 0x5b, 0xe8, 0x54, 0x5e, 0xac, 0x70, 0xc7, 0xfd, 0x99,
    0xd6, 0x7d, 0xda, 0xaa, 0xb2, 0xc8, 0xc6, 0x35, 0xca, 0xb9, 0xb1, 0x14, 0x59, 0xe1, 0x5e, 0xdc, 0x5c, 0x9f, 0x38, 0xed,
    0x58, 0xa8, 0xb2, 0x66, 0x93, 0x2c, 0x7e, 0x59, 0xc9, 0xc2, 0x41, 0x00, 0x1a, 0x9c, 0x59, 0xbe, 0xa5, 0xe1, 0xf3, 0xf1,
    0xde, 0x37, 0xf3, 0xe5, 0x94, 0x20, 0xc4, 0xcd, 0xcc, 0xee, 0x67, 0xde, 0x6b, 0xc6, 0xef, 0xab, 0x82, 0xb0, 0xcc, 0x11,
    0x6b, 0xfa, 0x21, 0xee, 0x56, 0xf2, 0x1e, 0x9c, 0xb1, 0x35, 0xda, 0x7f, 0xdc, 0xd6, 0x77, 0xfe, 0xee, 0xba, 0x29, 0x5e,
    0xe6, 0xc8, 0x07, 0x4f, 0xc4, 0x58, 0x90, 0x01, 0x12, 0x27, 0x61, 0x58, 0x35, 0x44, 0xdc, 0xdd, 0xb5, 0x22, 0x9f, 0x4c,
    0xe4, 0xdd, 0x14, 0x23, 0xe1, 0xe9, 0xfd, 0xd5, 0xd0, 0xf3, 0x1b, 0x8f, 0x1f, 0x20, 0xfa, 0xbe, 0x73, 0x87, 0xbd, 0x37,
    0x5c, 0xbf, 0x7e, 0x6a, 0x19, 0xac, 0x74, 0xee, 0xd2, 0xae, 0xc8, 0x01, 0x49, 0xbe, 0xbc, 0xa9, 0x05, 0x54, 0x3c, 0xf5,
    0x6c, 0x91, 0x82, 0xd2, 0x1a, 0x8c, 0x64, 0x73, 0xaa, 0xe0, 0x59, 0x73, 0xd9, 0xef, 0xad, 0x4b, 0x8d, 0x91, 0x42, 0x59,
    0xde, 0xce, 0xbc, 0xad, 0x5b, 0x33, 0xe1, 0xa1, 0xcf, 0xa7, 0x1a, 0xd9, 0xb1, 0x12, 0x32, 0xdd, 0x96, 0x1e, 0x6a, 0x9f,
    0xf4, 0xb9, 0x39, 0x33, 0x5f, 0xa7, 0x5c, 0x97, 0xa4, 0x86, 0x90, 0x1f, 0x1d, 0x0c, 0x87, 0x90, 0xca, 0x77, 0x17, 0x67,
    0xde, 0x3e, 0x6a, 0xfb, 0x6f, 0x7f, 0x0a, 0x13, 0xbb, 0xc5, 0x5e, 0x98, 0xbf, 0x72, 0xab, 0x50, 0xb4, 0xb2, 0xea, 0x9b,
    0x37, 0xb6, 0x3b, 0x02, 0xc9, 0xc5, 0xe9, 0x91, 0xa5, 0x18, 0x66, 0xae, 0x35, 0x59, 0x8b, 0x4c, 0xeb, 0xdd, 0x86, 0xc8,
    0xd5, 0xb3, 0x70, 0xc8, 0xa3, 0x11, 0x82, 0x95, 0x1f, 0x3c, 0x29, 0xc0, 0x00, 0xdf, 0x01, 0x44, 0x8f, 0x62, 0x1e, 0x44,
    0xb8, 0x20, 0x98, 0x11, 0xb8, 0xc1, 0x86, 0x3b, 0x52, 0x08, 0x55, 0xc3, 0x9b, 0xa0, 0x27, 0x52, 0x8a, 0x42, 0xcf, 0xaf,
    0xd3, 0xbc, 0xbb, 0xc0, 0x04, 0x62, 0x16, 0x7b, 0x0e, 0x78, 0x41, 0xcb, 0x53, 0x30, 0xe7, 0x3b, 0xcc, 0x86, 0xee, 0xc7,
    0xcf, 0xbf, 0x87, 0xeb, 0x51, 0x24, 0xa7, 0xe1, 0x29, 0xe0, 0x51, 0x00, 0x56, 0xca, 0xe2, 0x1f, 0x92, 0x3c, 0x66, 0xe2,
    0x78, 0x82, 0x7d, 0x4a, 0x81, 0xb7, 0x3a, 0xfb, 0xce, 0xac, 0x60, 0xe5, 0x2a, 0xb4, 0xf8, 0xf4, 0x31, 0x9b, 0xe6, 0xb2,
    0x4f, 0x5e, 0x6f, 0x98, 0x5d, 0x01, 0x91, 0x98, 0x35, 0x8e, 0x32, 0x8e, 0x28, 0x80, 0x4f, 0xa1, 0xe0, 0x50, 0x9c, 0x7e,
    0xf6, 0x59, 0xd6, 0x50, 0x97, 0x32, 0x30, 0x9c, 0x15, 0x7c, 0x24, 0x79, 0xd6, 0xf0, 0xd8, 0x14, 0x1f, 0xf0, 0x68, 0xad,
    0xe0, 0x1d, 0xf1, 0x67, 0x7b, 0x3e, 0xe3, 0x77, 0x33, 0xc3, 0x8b, 0xf8, 0x7b, 0xc1, 0xcf, 0x39, 0x98, 0xc4, 0xf0, 0xe6,
    0xba, 0xc4, 0x2a, 0xe3, 0xc0, 0xfc, 0xa8, 0xcd, 0x58, 0x70, 0xd0, 0xca, 0x0f, 0xd4, 0x0e, 0xf2, 0x6a, 0xe8, 0x15, 0x59,
    0x73, 0x5c, 0xf3, 0x1e, 0xe8, 0xa8, 0x4a, 0x22, 0xa1, 0xfb, 0x7b, 0x95, 0x0e, 0xd1, 0x7c, 0x22, 0x1b, 0x08, 0x4d, 0xe4,
    0xb7, 0x86, 0x23, 0x2e, 0xfd, 0xaa, 0xcb, 0x34, 0x24, 0x13, 0x57, 0xe5, 0xb8, 0xaf, 0xfd, 0x60, 0x15, 0x3e, 0xf6, 0xee,
    0x31, 0xc9, 0x67, 0xae, 0x80, 0xb9, 0x25, 0xf1, 0x7e, 0x85, 0xc9, 0x3b, 0x0f, 0xba, 0x12, 0xcf, 0x57, 0x34, 0x36, 0x9d,
    0x0f, 0xb7, 0xb6, 0xc7, 0x02, 0x44, 0xcb, 0x91, 0x5a, 0x39, 0x52, 0x76, 0x6c, 0xcb, 0xe6, 0x86, 0xf6, 0xba, 0x39, 0x8c,
    0xd7, 0x39, 0x64, 0x77, 0x88, 0x81, 0x53, 0xe4, 0x86, 0x55, 0x27, 0xaf, 0xaa, 0x39, 0x90, 0xad, 0x5a, 0xba, 0x9e, 0x4f,
    0x8c, 0x2c, 0x8c, 0xcf, 0x0c, 0x34, 0x54, 0xe9, 0x8a, 0x5d, 0xd0, 0xf3, 0x08, 0x1d, 0xf6, 0xea, 0x31, 0x5b, 0xd2, 0x5d,
    0x43, 0x45, 0xcb, 0x6d, 0xa8, 0x88, 0x03, 0xec, 0x5c, 0x50, 0x5c, 0xb7, 0x1b, 0xdc, 0x46, 0x7c, 0x18, 0x34, 0x6a, 0x87,
    0xb4, 0xe7, 0x1c, 0xd1, 0x3a, 0xcf, 0x6b, 0xbd, 0x5c, 0x7d, 0x78, 0xa2, 0x2b, 0xbf, 0x4f, 0x10, 0x4c, 0x64, 0x69, 0xfc,
    0xe7, 0x99, 0xf4, 0x95, 0x4d, 0xc9, 0xac, 0x5d, 0xf2, 0x91, 0x80, 0x61, 0xab, 0xf4, 0xa7, 0x48, 0x08, 0x2c, 0xd5, 0x20,
    0xe5, 0x19, 0x95, 0xaf, 0xa5, 0xaf, 0x29, 0x6b, 0x79, 0x72, 0x39, 0xa4, 0x03, 0xb0, 0x80, 0x32, 0x56, 0xfa, 0x41, 0xa6,
    0xb6, 0xe8, 0x10, 0x93, 0x22, 0x15, 0x4d, 0xda, 0x3f, 0x75, 0x7b, 0xb6, 0xa5, 0xc7, 0x2b, 0xd5, 0x07, 0x74, 0x40, 0xb7,
    0x8d, 0xce, 0x4c, 0xf2, 0xb6, 0xcc, 0xb6, 0x89, 0x0c, 0xea, 0xad, 0xcd, 0xa8, 0xfd, 0x0e, 0x18, 0x01, 0x68, 0x64, 0x07,
    0x48, 0xa8, 0x96, 0x98, 0x3b, 0x52, 0x81, 0xa5, 0x35, 0x73, 0x7f, 0x40, 0xbc, 0xfb, 0xb0, 0xcb, 0x4c, 0xd0, 0xee, 0x04,
    0x60, 0xdf, 0x98, 0x52, 0xcc, 0x91, 0x8f, 0x83, 0x5d, 0x67, 0xf4, 0xe0, 0x7f, 0xc8, 0xff, 0xba, 0x55, 0xd9, 0x55, 0x15,
    0xd1, 0x6a, 0xc1, 0xf0, 0x7c, 0x08, 0x67, 0x34, 0x62, 0x2c, 0xe1, 0xf9, 0x8a, 0x38, 0xff, 0xe7, 0x37, 0x52, 0x8c, 0x33,
    0x80, 0xe5, 0xa7, 0x8a, 0x38, 0x10, 0xd9, 0x30, 0x01, 0x67, 0xab, 0xbc, 0xe7, 0x41, 0x0f, 0x92, 0xc8, 0x30, 0xd7, 0x6e,
    0xd8, 0x8b, 0x72, 0xf3, 0x70, 0x94, 0x02, 0xb2, 0x36, 0xa3, 0x1d, 0x14, 0x7b, 0xb2, 0x95, 0x9c, 0xa3, 0x34, 0xe3, 0xac,
    0x41, 0x4f, 0xa6, 0xfb, 0x62, 0xdb, 0x24, 0xd9, 0x75, 0x6f, 0x27, 0x82, 0xe1, 0x3d, 0x46, 0x74, 0xa4, 0x78, 0x3b, 0xfe,
    0xd8, 0x34, 0x56, 0x1c, 0x3a, 0x39, 0xdf, 0xa0, 0x17, 0xbd, 0x17, 0x8c, 0x61, 0x02, 0x9e, 0xfe, 0x30, 0x82, 0x05, 0x8c,
    0x06, 0x09, 0x2a, 0x86, 0x48, 0x86, 0xf7, 0x0d, 0x01, 0x07, 0x01, 0xa0, 0x82, 0x05, 0x7d, 0x04, 0x82, 0x05, 0x79, 0x30,
    0x82, 0x05, 0x75, 0x30, 0x82, 0x05, 0x71, 0x06, 0x0b, 0x2a, 0x86, 0x48, 0x86, 0xf7, 0x0d, 0x01, 0x0c, 0x0a, 0x01, 0x02,
    0xa0, 0x82, 0x05, 0x39, 0x30, 0x82, 0x05, 0x35, 0x30, 0x5f, 0x06, 0x09, 0x2a, 0x86, 0x48, 0x86, 0xf7, 0x0d, 0x01, 0x05,
    0x0d, 0x30, 0x52, 0x30, 0x31, 0x06, 0x09, 0x2a, 0x86, 0x48, 0x86, 0xf7, 0x0d, 0x01, 0x05, 0x0c, 0x30, 0x24, 0x04, 0x10,
    0xfa, 0x0d, 0x6a, 0xf1, 0xb5, 0x92, 0x71, 0x92, 0x59, 0xe2, 0x58, 0x60, 0x54, 0xde, 0x2e, 0x6e, 0x02, 0x02, 0x08, 0x00,
    0x30, 0x0c, 0x06, 0x08, 0x2a, 0x86, 0x48, 0x86, 0xf7, 0x0d, 0x02, 0x09, 0x05, 0x00, 0x30, 0x1d, 0x06, 0x09, 0x60, 0x86,
    0x48, 0x01, 0x65, 0x03, 0x04, 0x01, 0x2a, 0x04, 0x10, 0xd0, 0x0a, 0x9a, 0x75, 0x9f, 0xbf, 0x54, 0x81, 0xd1, 0x96, 0xc5,
    0xd6, 0x1f, 0x50, 0xde, 0xcb, 0x04, 0x82, 0x04, 0xd0, 0x9a, 0x45, 0xff, 0x55, 0x66, 0xda, 0xb2, 0xc7, 0x59, 0x99, 0x90,
    0xf8, 0x4f, 0x34, 0x1a, 0x45, 0x89, 0x8d, 0x2e, 0x42, 0x1d, 0x72, 0xf5, 0x28, 0x17, 0xdc, 0x11, 0x26, 0x5f, 0xcd, 0xe5,
    0x22, 0xfa, 0x60, 0xbc, 0x68, 0x64, 0x72, 0x2c, 0x36, 0xd4, 0xd2, 0x39, 0xce, 0x61, 0xe2, 0xe7, 0xae, 0xfc, 0xd7, 0xd6,
    0x97, 0xed, 0x16, 0x91, 0xe7, 0x9f, 0x4c, 0x18, 0x8b, 0x44, 0x00, 0xb0, 0x70, 0x57, 0xcb, 0xe2, 0x26, 0x5e, 0x6c, 0x20,
    0x80, 0x5a, 0x42, 0xbf, 0xa5, 0xb8, 0x7a, 0xfd, 0x61, 0x89, 0x88, 0x94, 0xab, 0x0d, 0x36, 0xfe, 0x42, 0x80, 0xb0, 0x91,
    0xf1, 0xd9, 0x21, 0x53, 0x49, 0xe8, 0xfb, 0x8d, 0xbf, 0xaa, 0x8e, 0xd8, 0xc7, 0x06, 0xa1, 0x11, 0x5a, 0x6a, 0x79, 0x0f,
    0xee, 0xb7, 0x35, 0x66, 0xff, 0x9a, 0x03, 0x92, 0xe0, 0x59, 0x74, 0xec, 0xbc, 0x07, 0x06, 0x06, 0xaf, 0xab, 0x58, 0x32,
    0x27, 0xef, 0x7b, 0xac, 0xb5, 0xbf, 0x3e, 0xd3, 0x11, 0x03, 0x6e, 0xd3, 0x85, 0x5a, 0x17, 0xa5, 0xce, 0x91, 0xda, 0x6d,
    0x5e, 0x14, 0x13, 0xe6, 0xd5, 0xb5, 0x1e, 0x54, 0x21, 0x1b, 0xfe, 0x70, 0x17, 0x69, 0x99, 0x09, 0x7b, 0xf8, 0x6c, 0xfa,
    0xfc, 0x7c, 0x5d, 0xc0, 0x98, 0xed, 0x84, 0x1c, 0x73, 0xdc, 0x13, 0x2a, 0x1b, 0x7b, 0x6b, 0xdd, 0x87, 0x49, 0x33, 0x87,
    0x17, 0xe1, 0x1f, 0x9f, 0xc7, 0xd7, 0xc9, 0x72, 0x19, 0xe5, 0xb5, 0xab, 0x07, 0xff, 0x96, 0x0f, 0x6d, 0x7a, 0x0e, 0x84,
    0x26, 0x92, 0x4c, 0x36, 0x14, 0xdd, 0x8a, 0xb1, 0x97, 0x97, 0x5e, 0x73, 0xeb, 0xc3, 0x8d, 0xa1, 0x63, 0x62, 0x0e, 0xb8,
    0xd2, 0x4b, 0x50, 0x6b, 0x68, 0x91, 0x80, 0xe7, 0x06, 0xb1, 0xe3, 0x5c, 0xc9, 0xa2, 0xac, 0x1c, 0xbe, 0x57, 0x4c, 0xde,
    0x59, 0x0a, 0x89, 0x8b, 0xd7, 0xa6, 0x1c, 0xab, 0x0f, 0xed, 0x23, 0x5b, 0x6c, 0x0a, 0xfa, 0x1d, 0xc4, 0x0b, 0x6b, 0xd0,
    0x7a, 0x2f, 0xf7, 0x05, 0x33, 0x4c, 0x71, 0xb5, 0x2b, 0xc0, 0x46, 0x02, 0x78, 0x26, 0x24, 0x9a, 0xeb, 0x32, 0xb0, 0x52,
    0x8d, 0x24, 0xc9, 0x30, 0x08, 0xdd, 0x21, 0x96, 0x51, 0xc7, 0x61, 0x81, 0x33, 0x5b, 0x53, 0x55, 0x58, 0xde, 0x53, 0xcb,
    0x2b, 0xe4, 0x4e, 0xa7, 0x25, 0xd8, 0xd8, 0xdf, 0x3d, 0x67, 0xdd, 0x72, 0xd2, 0x3d, 0xb8, 0x43, 0x02, 0x2b, 0x0a, 0xc2,
    0xd1, 0xf2, 0x46, 0x75, 0x64, 0xee, 0xda, 0xac, 0xb0, 0x95, 0x4d, 0x87, 0x4c, 0xcc, 0xb3, 0xd0, 0xea, 0xef, 0xb1, 0x33,
    0x6c, 0x8a, 0x1f, 0x03, 0xd4, 0x0e, 0xb1, 0xef, 0xa5, 0xcd, 0x94, 0x1c, 0x5e, 0x79, 0x0b, 0x25, 0x36, 0x3d, 0x50, 0x3d,
    0xd9, 0x80, 0x6a, 0xf8, 0x04, 0x11, 0xad, 0x70, 0xfb, 0x00, 0x33, 0x83, 0x89, 0x50, 0xb9, 0x87, 0xe2, 0x23, 0xf5, 0xbe,
    0xe3, 0x7b, 0xce, 0x55, 0x5b, 0xab, 0xd6, 0x01, 0x0a, 0x3b, 0x8b, 0x9d, 0x0d, 0xbf, 0x4e, 0x78, 0xce, 0xf1, 0xb8, 0xe1,
    0xed, 0x86, 0xdd, 0x2c, 0xc6, 0x60, 0xa2, 0x60, 0x41, 0x25, 0x60, 0x99, 0x9e, 0xb4, 0x9a, 0x66, 0x3a, 0x47, 0xe5, 0xd3,
    0x7a, 0x05, 0xaa, 0x3c, 0x7f, 0x96, 0x1d, 0x97, 0x29, 0xd3, 0x0a, 0xec, 0x04, 0xf8, 0xcb, 0xf8, 0x9e, 0x1d, 0x7f, 0xc3,
    0x99, 0x90, 0xa2, 0xda, 0xb6, 0xeb, 0x20, 0x74, 0x6f, 0xe2, 0xae, 0xef, 0x97, 0xf9, 0xff, 0xba, 0xc8, 0x44, 0x6a, 0x44,
    0x70, 0xdf, 0xd1, 0xac, 0x04, 0x8d, 0x4a, 0x49, 0x0c, 0x72, 0xb6, 0xab, 0x55, 0x8d, 0x10, 0x6a, 0x89, 0xc6, 0x33, 0x80,
    0xa6, 0xb4, 0x79, 0x85, 0xaa, 0xd7, 0x20, 0xce, 0xa4, 0x36, 0x3e, 0x54, 0x15, 0x70, 0xfa, 0x71, 0x9a, 0xf6, 0x51, 0xe7,
    0x47, 0x36, 0x38, 0x4c, 0x50, 0x80, 0xe4, 0xac, 0xd2, 0x36, 0x9d, 0xe1, 0x80, 0x36, 0xcc, 0x7d, 0xed, 0x1a, 0x79, 0xcf,
    0x85, 0xa8, 0x11, 0x9e, 0x30, 0x2f, 0xb2, 0x81, 0x7d, 0x32, 0xb4, 0x65, 0x4d, 0x9c, 0xf8, 0xf3, 0x26, 0x3e, 0x1e, 0x96,
    0x25, 0x21, 0x2f, 0x00, 0xbe, 0x81, 0x8a, 0xa8, 0x9b, 0xcf, 0x63, 0x04, 0x4e, 0x9a, 0xa6, 0x49, 0x37, 0x1e, 0x5a, 0xc4,
    0xe2, 0xfe, 0x20, 0x2a, 0x8a, 0x89, 0x49, 0xe9, 0x50, 0x86, 0xa8, 0x2c, 0x7a, 0xb3, 0xbc, 0xf0, 0x9c, 0x59, 0x89, 0xd5,
    0xa6, 0xcd, 0x63, 0x89, 0xef, 0xc8, 0xad, 0x6f, 0x21, 0x95, 0x0d, 0x23, 0xae, 0x77, 0x08, 0x4a, 0x2c, 0x6f, 0x9a, 0x2e,
    0xc2, 0x0f, 0xb8, 0xb2, 0x30, 0xe6, 0x4b, 0xf5, 0x28, 0xf9, 0x16, 0x13, 0x85, 0x6d, 0x43, 0x3b, 0x94, 0x7f, 0xdc, 0xa2,
    0xb0, 0x93, 0x57, 0xac, 0x76, 0x2e, 0x20, 0x95, 0x4d, 0x8a, 0x7c, 0x59, 0x6e, 0xf1, 0x4e, 0x9c, 0x08, 0x66, 0x4e, 0x0c,
    0x65, 0x13, 0xde, 0xfd, 0xd3, 0xe9, 0xf0, 0x50, 0xc3, 0x6d, 0x71, 0x2d, 0x18, 0x09, 0x6a, 0x3a, 0x07, 0xc1, 0xaa, 0x56,
    0xe5, 0x33, 0x6f, 0x36, 0x99, 0xb9, 0xab, 0xd5, 0x74, 0xa9, 0x29, 0xd3, 0x6c, 0x1f, 0x5e, 0x40, 0xfe, 0x90, 0xc8, 0x0a,
    0x6d, 0x30, 0x38, 0x83, 0xbf, 0xb4, 0x24, 0x4c, 0x3f, 0x5d, 0x6b, 0x6f, 0x37, 0x6a, 0xac, 0x4a, 0x49, 0xc5, 0x49, 0x88,
    0xaa, 0x72, 0x7d, 0x0c, 0x11, 0x5c, 0x18, 0xea, 0x26, 0x10, 0x71, 0xc9, 0x4a, 0xc3, 0x06, 0x54, 0x97, 0x4f, 0xca, 0x2f,
    0x3c, 0x9b, 0xb8, 0x83, 0xd4, 0x92, 0xcb, 0xd9, 0xe2, 0x5f, 0xe2, 0xad, 0x05, 0x02, 0x20, 0x1f, 0x78, 0xc8, 0x69, 0xef,
    0x8a, 0x8b, 0xee, 0x34, 0x6b, 0x8c, 0xb3, 0x69, 0x6a, 0x19, 0x02, 0xe7, 0x8b, 0x7e, 0x23, 0x05, 0xc4, 0xa3, 0x30, 0xf9,
    0x2e, 0xb6, 0xdf, 0xec, 0x4a, 0x25, 0xf2, 0xbe, 0x45, 0x30, 0x70, 0x5c, 0x11, 0x9d, 0xa2, 0x04, 0x56, 0x8c, 0x99, 0x31,
    0x0a, 0x35, 0x83, 0x8a, 0x96, 0xa1, 0x3e, 0x48, 0x6c, 0xca, 0xa8, 0xef, 0x44, 0x78, 0x00, 0x3b, 0x3c, 0xc9, 0x4b, 0xa9,
    0x54, 0x36, 0x33, 0x39, 0x53, 0x06, 0x73, 0xe3, 0xde, 0xcf, 0xd3, 0xba, 0x5f, 0x0e, 0x98, 0xdb, 0x16, 0x64, 0xbd, 0xff,
    0x04, 0x1d, 0x32, 0x4e, 0x45, 0xa7, 0x14, 0xba, 0x43, 0x46, 0xde, 0xdd, 0xec, 0x8f, 0x12, 0x33, 0xe7, 0x85, 0x3b, 0x21,
    0x9b, 0x4c, 0x62, 0xa5, 0x31, 0x55, 0x68, 0x6f, 0x69, 0xdc, 0xf7, 0x15, 0x2d, 0x75, 0x8a, 0x38, 0xe8, 0x20, 0xd7, 0x39,
    0x7e, 0x80, 0x7f, 0x5c, 0xe6, 0x5e, 0xd6, 0xd2, 0x89, 0x48, 0x66, 0xb6, 0x6f, 0xef, 0x21, 0xc8, 0xf6, 0xb5, 0xbf, 0x7f,
    0x2a, 0x20, 0xb1, 0xf1, 0x09, 0x3b, 0x74, 0x65, 0x7d, 0x80, 0x35, 0x4b, 0x52, 0xa2, 0x3b, 0xcb, 0xa2, 0x53, 0xb8, 0xbe,
    0x5a, 0x74, 0xec, 0x18, 0x6c, 0x5c, 0xe9, 0x2d, 0x3a, 0xfd, 0x3a, 0x25, 0xc6, 0x15, 0x61, 0xe0, 0xab, 0xe5, 0x82, 0xbb,
    0xf4, 0x26, 0xd8, 0x1d, 0xf2, 0xe2, 0xf0, 0x80, 0x46, 0x2e, 0x13, 0x1a, 0x5d, 0xca, 0x00, 0xd7, 0xed, 0x03, 0x6a, 0x7b,
    0xb0, 0x5a, 0xa8, 0xa2, 0xed, 0x31, 0x55, 0x0e, 0x17, 0x53, 0x6f, 0xaa, 0xaf, 0xf8, 0xcb, 0xdb, 0xac, 0x8d, 0x2a, 0x30,
    0x8d, 0x7f, 0x67, 0xd4, 0x3b, 0x7d, 0xa2, 0x78, 0xd3, 0xce, 0x8c, 0x9d, 0x90, 0xb9, 0x56, 0x78, 0x84, 0xc9, 0x9f, 0xfe,
    0x3f, 0x46, 0xf1, 0x2b, 0x21, 0x71, 0x3d, 0xb4, 0xf3, 0x76, 0x56, 0x10, 0xe3, 0xe0, 0xf2, 0x74, 0x49, 0x07, 0xed, 0x9e,
    0x9c, 0x46, 0x2e, 0xe3, 0xb6, 0xdf, 0x75, 0xc5, 0xca, 0xb2, 0x24, 0x39, 0x19, 0x79, 0xa1, 0x5a, 0xc7, 0xcf, 0xc6, 0x50,
    0xd0, 0xf9, 0x65, 0x6b, 0x06, 0xae, 0x53, 0x54, 0x3a, 0x8b, 0x4a, 0xc5, 0x1a, 0xc6, 0xf2, 0xa0, 0xc6, 0x33, 0x59, 0x52,
    0x55, 0x28, 0x2b, 0x07, 0xbb, 0x19, 0xe3, 0x37, 0xee, 0x78, 0x21, 0xe3, 0xdf, 0x3d, 0x6b, 0x0a, 0xc8, 0x73, 0xd3, 0x36,
    0x02, 0x87, 0xa7, 0x7b, 0x68, 0x82, 0xc2, 0x1e, 0x03, 0x56, 0x2d, 0xdf, 0x35, 0x89, 0x65, 0x4c, 0x88, 0x66, 0x2e, 0xcb,
    0xe9, 0x96, 0x32, 0xa2, 0x15, 0x8b, 0xdd, 0x89, 0xbe, 0xec, 0x6d, 0x29, 0xa7, 0x05, 0xf8, 0xb0, 0xe2, 0x87, 0x90, 0x1b,
    0x01, 0xeb, 0xb2, 0xb7, 0xbb, 0xb7, 0x62, 0xbb, 0x61, 0x7c, 0x6e, 0x41, 0x85, 0x12, 0x88, 0xae, 0xa4, 0x49, 0xc6, 0x09,
    0x79, 0xd3, 0xde, 0x4f, 0xa7, 0xf1, 0x32, 0x07, 0x43, 0xc8, 0x13, 0x40, 0x96, 0xf5, 0x32, 0xc1, 0x37, 0x49, 0x1e, 0x29,
    0x62, 0x0b, 0xba, 0xef, 0x4e, 0x95, 0x44, 0xb7, 0x8e, 0x0f, 0x54, 0x9e, 0xe6, 0x51, 0x72, 0xfb, 0xce, 0xfe, 0xb1, 0xc0,
    0x12, 0x5b, 0x2d, 0xc5, 0x24, 0xd5, 0x5b, 0xb1, 0xc3, 0xd6, 0x40, 0xcb, 0x33, 0x15, 0xd2, 0x25, 0x22, 0x20, 0x99, 0xa6,
    0x01, 0x19, 0x8b, 0xd2, 0x8b, 0x8a, 0x63, 0x41, 0xb7, 0xb6, 0xf1, 0xdf, 0x65, 0xc1, 0xfe, 0xdb, 0xa6, 0xaf, 0x4d, 0xb0,
    0xab, 0xe2, 0x03, 0xe2, 0x9f, 0x9a, 0xd7, 0xf7, 0x92, 0xd1, 0x0e, 0x02, 0x50, 0xd0, 0x46, 0x1d, 0xcd, 0x5e, 0xc3, 0x4c,
    0xee, 0x31, 0x25, 0x30, 0x23, 0x06, 0x09, 0x2a, 0x86, 0x48, 0x86, 0xf7, 0x0d, 0x01, 0x09, 0x15, 0x31, 0x16, 0x04, 0x14,
    0x72, 0x5d, 0xdb, 0xda, 0x8f, 0x95, 0x1d, 0x2d, 0x18, 0xf4, 0x43, 0x04, 0xa7, 0xc1, 0xfd, 0xe5, 0x25, 0x77, 0x28, 0x9f,
    0x30, 0x41, 0x30, 0x31, 0x30, 0x0d, 0x06, 0x09, 0x60, 0x86, 0x48, 0x01, 0x65, 0x03, 0x04, 0x02, 0x01, 0x05, 0x00, 0x04,
    0x20, 0x7a, 0x16, 0x43, 0x18, 0xad, 0xa5, 0x38, 0x15, 0x71, 0xb8, 0xdd, 0xdd, 0xc7, 0xad, 0xc2, 0x04, 0x9f, 0x80, 0x8d,
    0xb3, 0x5d, 0x6e, 0xfb, 0x93, 0x55, 0x7b, 0xbc, 0x43, 0x09, 0x33, 0x9b, 0x4a, 0x04, 0x08, 0x6f, 0xc4, 0xc9, 0xf9, 0x13,
    0x42, 0xee, 0x5b, 0x02, 0x02, 0x08, 0x00,
];

const PDF: &[u8] = &[
    0x25, 0x50, 0x44, 0x46, 0x2d, 0x31, 0x2e, 0x34, 0x0a, 0x31, 0x20, 0x30, 0x20, 0x6f, 0x62, 0x6a, 0x0a, 0x3c, 0x3c, 0x20,
    0x2f, 0x54, 0x79, 0x70, 0x65, 0x20, 0x2f, 0x43, 0x61, 0x74, 0x61, 0x6c, 0x6f, 0x67, 0x20, 0x2f, 0x50, 0x61, 0x67, 0x65,
    0x73, 0x20, 0x32, 0x20, 0x30, 0x20, 0x52, 0x20, 0x3e, 0x3e, 0x0a, 0x65, 0x6e, 0x64, 0x6f, 0x62, 0x6a, 0x0a, 0x32, 0x20,
    0x30, 0x20, 0x6f, 0x62, 0x6a, 0x0a, 0x3c, 0x3c, 0x20, 0x2f, 0x54, 0x79, 0x70, 0x65, 0x20, 0x2f, 0x50, 0x61, 0x67, 0x65,
    0x73, 0x20, 0x2f, 0x4b, 0x69, 0x64, 0x73, 0x20, 0x5b, 0x33, 0x20, 0x30, 0x20, 0x52, 0x5d, 0x20, 0x2f, 0x43, 0x6f, 0x75,
    0x6e, 0x74, 0x20, 0x31, 0x20, 0x3e, 0x3e, 0x0a, 0x65, 0x6e, 0x64, 0x6f, 0x62, 0x6a, 0x0a, 0x33, 0x20, 0x30, 0x20, 0x6f,
    0x62, 0x6a, 0x0a, 0x3c, 0x3c, 0x20, 0x2f, 0x54, 0x79, 0x70, 0x65, 0x20, 0x2f, 0x50, 0x61, 0x67, 0x65, 0x20, 0x2f, 0x50,
    0x61, 0x72, 0x65, 0x6e, 0x74, 0x20, 0x32, 0x20, 0x30, 0x20, 0x52, 0x20, 0x2f, 0x4d, 0x65, 0x64, 0x69, 0x61, 0x42, 0x6f,
    0x78, 0x20, 0x5b, 0x30, 0x20, 0x30, 0x20, 0x36, 0x31, 0x32, 0x20, 0x37, 0x39, 0x32, 0x5d, 0x20, 0x2f, 0x43, 0x6f, 0x6e,
    0x74, 0x65, 0x6e, 0x74, 0x73, 0x20, 0x34, 0x20, 0x30, 0x20, 0x52, 0x20, 0x2f, 0x52, 0x65, 0x73, 0x6f, 0x75, 0x72, 0x63,
    0x65, 0x73, 0x20, 0x3c, 0x3c, 0x20, 0x3e, 0x3e, 0x20, 0x3e, 0x3e, 0x0a, 0x65, 0x6e, 0x64, 0x6f, 0x62, 0x6a, 0x0a, 0x34,
    0x20, 0x30, 0x20, 0x6f, 0x62, 0x6a, 0x0a, 0x3c, 0x3c, 0x20, 0x2f, 0x4c, 0x65, 0x6e, 0x67, 0x74, 0x68, 0x20, 0x34, 0x33,
    0x20, 0x3e, 0x3e, 0x0a, 0x73, 0x74, 0x72, 0x65, 0x61, 0x6d, 0x0a, 0x42, 0x54, 0x20, 0x2f, 0x46, 0x31, 0x20, 0x31, 0x32,
    0x20, 0x54, 0x66, 0x20, 0x37, 0x32, 0x20, 0x37, 0x32, 0x30, 0x20, 0x54, 0x64, 0x20, 0x28, 0x48, 0x6f, 0x6c, 0x61, 0x20,
    0x52, 0x75, 0x62, 0x72, 0x69, 0x63, 0x61, 0x29, 0x20, 0x54, 0x6a, 0x20, 0x45, 0x54, 0x0a, 0x65, 0x6e, 0x64, 0x73, 0x74,
    0x72, 0x65, 0x61, 0x6d, 0x0a, 0x65, 0x6e, 0x64, 0x6f, 0x62, 0x6a, 0x0a, 0x78, 0x72, 0x65, 0x66, 0x0a, 0x30, 0x20, 0x35,
    0x0a, 0x30, 0x30, 0x30, 0x30, 0x30, 0x30, 0x30, 0x30, 0x30, 0x30, 0x20, 0x36, 0x35, 0x35, 0x33, 0x35, 0x20, 0x66, 0x20,
    0x0a, 0x30, 0x30, 0x30, 0x30, 0x30, 0x30, 0x30, 0x30, 0x30, 0x39, 0x20, 0x30, 0x30, 0x30, 0x30, 0x30, 0x20, 0x6e, 0x20,
    0x0a, 0x30, 0x30, 0x30, 0x30, 0x30, 0x30, 0x30, 0x30, 0x35, 0x38, 0x20, 0x30, 0x30, 0x30, 0x30, 0x30, 0x20, 0x6e, 0x20,
    0x0a, 0x30, 0x30, 0x30, 0x30, 0x30, 0x30, 0x30, 0x31, 0x31, 0x35, 0x20, 0x30, 0x30, 0x30, 0x30, 0x30, 0x20, 0x6e, 0x20,
    0x0a, 0x30, 0x30, 0x30, 0x30, 0x30, 0x30, 0x30, 0x32, 0x31, 0x39, 0x20, 0x30, 0x30, 0x30, 0x30, 0x30, 0x20, 0x6e, 0x20,
    0x0a, 0x74, 0x72, 0x61, 0x69, 0x6c, 0x65, 0x72, 0x0a, 0x3c, 0x3c, 0x20, 0x2f, 0x53, 0x69, 0x7a, 0x65, 0x20, 0x35, 0x20,
    0x2f, 0x52, 0x6f, 0x6f, 0x74, 0x20, 0x31, 0x20, 0x30, 0x20, 0x52, 0x20, 0x3e, 0x3e, 0x0a, 0x73, 0x74, 0x61, 0x72, 0x74,
    0x78, 0x72, 0x65, 0x66, 0x0a, 0x33, 0x31, 0x32, 0x0a, 0x25, 0x25, 0x45, 0x4f, 0x46, 0x0a,
];

fn identity() -> Identity {
    parse_pkcs12(P12, "test").expect("cargar PKCS#12 de prueba")
}

#[test]
fn carga_pkcs12_y_lee_common_name() {
    let id = identity();
    assert_eq!(id.common_name().as_deref(), Some("Rubrica Test"));
}

#[test]
fn pades_produce_estructura_de_firma() {
    let signed = pades::sign(PDF, &identity()).expect("firmar PDF");

    let contains = |needle: &[u8]| signed.windows(needle.len()).any(|w| w == needle);
    assert!(contains(b"/Type /Sig"));
    assert!(contains(b"ETSI.CAdES.detached"));
    assert!(contains(b"/AcroForm"));
    assert!(contains(b"/ByteRange ["));
    assert!(signed.len() > PDF.len());
}

#[test]
fn cades_produce_cms_signed_data() {
    let sig = cades::sign(b"contenido de prueba", &identity()).expect("firmar CAdES");
    assert!(sig.len() > 100);
    assert_eq!(sig[0], 0x30, "el CMS debe empezar por SEQUENCE (DER)");
}

#[test]
fn pades_firma_y_verifica_round_trip() {
    let signed = pades::sign(PDF, &identity()).expect("firmar PDF");
    let report = pades::verify(&signed).expect("verificar PDF");
    assert!(report.digest_matches, "el documento no debe estar alterado");
    assert!(report.signature_valid, "la firma debe ser válida");
    assert!(report.is_valid());
    assert_eq!(report.signer_common_name.as_deref(), Some("Rubrica Test"));
}

#[test]
fn pades_detecta_documento_manipulado() {
    let mut signed = pades::sign(PDF, &identity()).expect("firmar PDF");
    signed[20] ^= 0xff;
    let report = pades::verify(&signed).expect("verificar PDF manipulado");
    assert!(
        !report.is_valid(),
        "una firma sobre contenido alterado no es válida"
    );
}

#[test]
fn cades_firma_y_verifica_round_trip() {
    let data = b"contenido de prueba";
    let sig = cades::sign(data, &identity()).expect("firmar CAdES");
    let report = cades::verify(data, &sig).expect("verificar CAdES");
    assert!(report.is_valid());

    let report_malo = cades::verify(b"otro contenido", &sig).expect("verificar alterado");
    assert!(!report_malo.is_valid());
}

#[test]
fn carga_pkcs12_moderno_aes_y_firma() {
    let id = parse_pkcs12(P12_MODERN, "test").expect("cargar PKCS#12 con cifrado AES/PBES2");
    assert_eq!(id.common_name().as_deref(), Some("Modern Test"));

    let signed = pades::sign(PDF, &id).expect("firmar con certificado moderno");
    let report = pades::verify(&signed).expect("verificar");
    assert!(report.is_valid());
}

use rubrica::error::Error;
use rubrica::firma_cms::{completar_sello, preparar_sello, sha256, signed_data_detached};
use rubrica::pades::{extract, numeracion_suficiente};
use rubrica::pades_b::{find_startxref, max_obj_number, prepare_incremental, sign_b, Signer};
use rubrica::proveedores::{firmar_local, Solicitud};
use rubrica::trifasica::{paso_carfirma, AccionTrifasica, EstadoTrifasico, EventoTrifasico};
use rubrica::validate::{signature_value, verify_detached};
use rubrica::{web, xades};

#[test]
fn pkcs12_con_clave_incorrecta() {
    assert!(matches!(parse_pkcs12(P12, "otra"), Err(Error::Pkcs12)));
    assert!(matches!(parse_pkcs12(b"basura", "test"), Err(Error::Pkcs12)));
}

#[test]
fn identidad_sin_cadena() {
    let id = identity();
    assert_eq!(id.root_der(), None);
    let der = id.cert_der().unwrap();
    assert_eq!(der[0], 0x30);
}

#[test]
fn firma_rsa_determinista() {
    let id = identity();
    let a = id.firmar_sha256(b"hash del servidor").unwrap();
    let b = id.firmar_sha256(b"hash del servidor").unwrap();
    assert_eq!(a.len(), 256);
    assert_eq!(a, b);
    assert_ne!(a, id.firmar_sha256(b"otro").unwrap());
}

#[test]
fn lo_firmado_se_lee_de_vuelta() {
    let signed = pades::sign(PDF, &identity()).expect("firmar PDF");
    assert_eq!(&signed[..PDF.len()], PDF);
    let (contenido, cms) = extract(&signed).expect("extraer");
    assert_eq!(cms[0], 0x30);
    let hex = hex::encode(&cms);
    assert!(signed.windows(hex.len()).any(|w| w == hex.as_bytes()));
    assert_eq!(contenido.len(), signed.len() - 16386);
    let report = verify_detached(&contenido, &cms).unwrap();
    assert!(report.is_valid());
}

#[test]
fn pdf_sin_anclas() {
    assert_eq!(
        pades::sign(b"%PDF-1.4\nsin nada", &identity()).err(),
        Some(Error::Pdf("sin startxref".to_string()))
    );
    assert!(numeracion_suficiente(PDF));
}

#[test]
fn firma_cades_con_cms_mal_formado() {
    let r = cades::verify(b"x", b"no es cms");
    assert!(matches!(r, Err(Error::Crypto(m)) if m.starts_with("ContentInfo: ")));
}

#[test]
fn valor_de_firma_del_cms() {
    let id = identity();
    let cms = signed_data_detached(&sha256(b"datos"), &id).unwrap();
    let valor = signature_value(&cms).unwrap();
    assert_eq!(valor.len(), 256);
}

#[test]
fn sello_en_dos_pasos() {
    let id = identity();
    let resumen = sha256(b"datos");
    let peticion = preparar_sello(&resumen, &id).unwrap();
    assert_eq!(peticion.len(), 57);
    assert_eq!(
        completar_sello(&resumen, &id, Err("sin red".to_string())),
        Err(Error::Tsa("sin red".to_string()))
    );
    assert_eq!(
        completar_sello(&resumen, &id, Ok((500, Vec::new()))),
        Err(Error::Tsa("la TSA respondió 500".to_string()))
    );
    let token = vec![0x30, 0x03, 0x02, 0x01, 0x07];
    let mut resp = vec![0x30, 0x05 + 5, 0x30, 0x03, 0x02, 0x01, 0x00];
    resp.extend_from_slice(&token);
    let firmado = completar_sello(&resumen, &id, Ok((200, resp))).unwrap();
    assert!(firmado.windows(token.len()).any(|w| w == token.as_slice()));
    assert!(verify_detached(b"datos", &firmado).unwrap().is_valid());
}

#[test]
fn xades_envolvente() {
    let xml = xades::sign(b"<doc/>", &identity()).unwrap();
    let texto = String::from_utf8(xml).unwrap();
    assert!(texto.starts_with("<?xml version=\"1.0\" encoding=\"UTF-8\"?><Signature xmlns=\"http://www.w3.org/2000/09/xmldsig#\"><SignedInfo"));
    assert!(texto.contains("<Object xmlns=\"http://www.w3.org/2000/09/xmldsig#\" Id=\"obj\">PGRvYy8+</Object></Signature>"));
    assert!(texto.contains("<SignatureValue>"));
    assert!(texto.contains("<X509Certificate>"));
}

#[test]
fn pades_b_del_prototipo() {
    let signer = Signer::from_pkcs12_bytes(P12, "test").expect("firmante");
    let signed = sign_b(PDF, &signer).expect("firmar");
    assert_eq!(&signed[..PDF.len()], PDF);
    let report = pades::verify(&signed).expect("verificar");
    assert!(report.is_valid());
    assert_eq!(report.signer_common_name.as_deref(), Some("Rubrica Test"));
    assert!(Signer::from_pkcs12_bytes(P12, "mal").is_err());
}

#[test]
fn anclas_del_prototipo() {
    assert_eq!(find_startxref(PDF), Ok(312));
    assert_eq!(max_obj_number(PDF), Ok(4));
    assert_eq!(
        prepare_incremental(b"%PDF-1.4\nstartxref\n9\n").err().as_deref(),
        Some("trailer sin /Root")
    );
    assert_eq!(max_obj_number(b"nada").err().as_deref(), Some("no se encontró ningún objeto en el PDF"));
    let (bytes, br, span) = prepare_incremental(PDF).unwrap();
    assert_eq!(br.a, 0);
    assert_eq!(br.b + 1, span.hex_start);
    assert_eq!(span.hex_len, 16384);
    assert_eq!(br.c + br.d, bytes.len());
}

#[test]
fn firma_local_de_la_solicitud() {
    let id = identity();
    let sin = Solicitud { servidor: String::new(), sesion: String::new(), documento: None };
    let (r, b) = firmar_local(&sin, &id);
    assert!(!r.correcto);
    assert_eq!(r.mensaje, "no se recibió el documento a firmar");
    assert!(b.is_none());
    let con = Solicitud { servidor: String::new(), sesion: String::new(), documento: Some(b"hola".to_vec()) };
    let (r, b) = firmar_local(&con, &id);
    let b = b.unwrap();
    assert!(r.correcto);
    assert_eq!(r.mensaje, format!("firmado ({} bytes)", b.len()));
}

#[test]
fn firma_trifasica_paso_a_paso() {
    let id = identity();
    let sol = Solicitud { servidor: "https://s".to_string(), sesion: "SES".to_string(), documento: None };
    let (e, a, t) = paso_carfirma(EstadoTrifasico::Inicio, EventoTrifasico::Comenzar, &sol, &id);
    assert!(matches!(e, EstadoTrifasico::EsperandoDocumento));
    assert!(matches!(a, AccionTrifasica::PedirDocumento(ref s) if s == "SES"));
    assert_eq!(t, vec!["inicio firma trifásica".to_string()]);
    let (e, a, t) = paso_carfirma(e, EventoTrifasico::Documento(Some("D1".to_string())), &sol, &id);
    assert!(matches!(e, EstadoTrifasico::EsperandoResumen(ref d) if d == "D1"));
    assert!(matches!(a, AccionTrifasica::EnviarPrefirma(ref d, _, None) if d == "D1"));
    assert_eq!(t[0], "doc_id obtenido: D1");
    let (e, a, t) = paso_carfirma(e, EventoTrifasico::Resumen(Ok(vec![1, 2, 3])), &sol, &id);
    assert!(matches!(e, EstadoTrifasico::EsperandoCierre));
    assert!(matches!(a, AccionTrifasica::EnviarFirma(ref d, ref f) if d == "D1" && f.len() == 256));
    assert_eq!(t, vec!["hash recibido del servidor: 3 bytes".to_string(), "firma generada localmente: 256 bytes".to_string()]);
    let (e, a, _) = paso_carfirma(e, EventoTrifasico::Cierre(Err("500".to_string())), &sol, &id);
    assert!(matches!(e, EstadoTrifasico::Terminado));
    assert!(matches!(a, AccionTrifasica::Terminar(ref r) if !r.correcto && r.mensaje == "post-firma: 500"));
}

#[test]
fn firma_desde_la_interfaz_web() {
    let b64 = base64::engine::general_purpose::STANDARD;
    let body = format!(
        "{{\"document\":\"{}\",\"certificate\":\"{}\",\"password\":\"test\",\"name\":\"informe.pdf\"}}",
        b64.encode(PDF),
        b64.encode(P12)
    );
    let (codigo, json) = web::handle_sign(&body);
    assert_eq!(codigo, 200);
    assert!(json.contains("\"filename\":\"informe-firmado.pdf\""));
    assert!(json.ends_with(",\"signer\":\"Rubrica Test\"}"));
    let firmado = b64.decode(web::field(&json, "signed").unwrap()).unwrap();
    assert!(pades::verify(&firmado).unwrap().is_valid());
    let mala = body.replace("\"password\":\"test\"", "\"password\":\"no\"");
    let (codigo, json) = web::handle_sign(&mala);
    assert_eq!(codigo, 400);
    assert_eq!(json, "{\"error\":\"PKCS#12 inválido o contraseña incorrecta\"}");
}

use rubrica::firma_cms::{message_digest_attribute, signature_timestamp, signing_certificate_v2};

#[test]
fn atributos_firmados_como_valores() {
    let md = message_digest_attribute(&[1, 2, 3]).unwrap();
    assert_eq!(md.oid, vec![0x2a, 0x86, 0x48, 0x86, 0xf7, 0x0d, 0x01, 0x09, 0x04]);
    assert_eq!(md.valor, vec![0x04, 0x03, 1, 2, 3]);

    let scv2 = signing_certificate_v2(b"x").unwrap();
    assert_eq!(scv2.oid, vec![0x2a, 0x86, 0x48, 0x86, 0xf7, 0x0d, 0x01, 0x09, 0x10, 0x02, 0x2f]);
    assert_eq!(scv2.valor.len(), 40);
    assert_eq!(&scv2.valor[..8], &[0x30, 0x26, 0x30, 0x24, 0x30, 0x22, 0x04, 0x20]);
    assert_eq!(&scv2.valor[8..], sha256(b"x").as_slice());
}

#[test]
fn sello_de_tiempo_como_atributo() {
    let a = signature_timestamp(&[0x04, 0x01, 0x05]).unwrap();
    assert_eq!(a.oid, vec![0x2a, 0x86, 0x48, 0x86, 0xf7, 0x0d, 0x01, 0x09, 0x10, 0x02, 0x0e]);
    assert_eq!(a.valor, vec![0x04, 0x01, 0x05]);
    assert!(matches!(
        signature_timestamp(&[0x04, 0x05]),
        Err(rubrica::error::Error::Crypto(_))
    ));
    assert!(matches!(
        signature_timestamp(&[0x04, 0x01, 0x05, 0x00]),
        Err(rubrica::error::Error::Crypto(_))
    ));
}

#[test]
fn cadena_con_certificados_repetidos() {
    let id = identity();
    assert!(rubrica::firma_cms::certificados_distintos(&id.cert, &id.chain));
    let repetida = vec![id.cert.clone()];
    assert!(!rubrica::firma_cms::certificados_distintos(&id.cert, &repetida));
    assert!(!rubrica::firma_cms::certificados_distintos(b"no es un certificado", &[]));
    assert!(id.firma_sha256_posible());
}

fn der(t: u8, c: &[u8]) -> Vec<u8> {
    let mut v = vec![t, c.len() as u8];
    v.extend_from_slice(c);
    v
}

fn almacen_con_version(version: u8) -> Vec<u8> {
    let data_oid = der(0x06, &[0x2a, 0x86, 0x48, 0x86, 0xf7, 0x0d, 0x01, 0x07, 0x01]);
    let cifrado_oid = der(0x06, &[0x2a, 0x86, 0x48, 0x86, 0xf7, 0x0d, 0x01, 0x07, 0x06]);
    let eci = der(0x30, &data_oid);
    let ed = der(0x30, &[der(0x02, &[version]), eci].concat());
    let ci = der(0x30, &[cifrado_oid, der(0xa0, &ed)].concat());
    let contenidos = der(0x30, &ci);
    let auth = der(0x30, &[data_oid.clone(), der(0xa0, &der(0x04, &contenidos))].concat());
    der(0x30, &[der(0x02, &[3]), auth].concat())
}

#[test]
fn almacen_para_el_lector_antiguo() {
    assert!(rubrica::pkcs12::es_almacen_legible(P12));
    assert!(!rubrica::pkcs12::es_almacen_legible(b"no es un almacen"));
    assert!(rubrica::pkcs12::es_almacen_legible(&almacen_con_version(0)));
    assert!(!rubrica::pkcs12::es_almacen_legible(&almacen_con_version(1)));
    assert!(matches!(
        rubrica::keystore::legacy(&almacen_con_version(1), "test"),
        Err(rubrica::error::Error::Pkcs12)
    ));
}

#[test]
fn documento_preparado_y_firma_incrustada() {
    let p = rubrica::pades::Prepared::build(PDF).unwrap();
    let firmados = p.signed_bytes();
    let out = p.embed(&[0xab, 0xcd]).unwrap();
    assert_eq!(out.len(), firmados.len() + 16384 + 2);
    assert_eq!(&out[..PDF.len()], PDF);
    let h = out.windows(4).position(|w| w == b"abcd").unwrap();
    assert_eq!(out[h - 1], b'<');
    assert_eq!(out[h + 16384], b'>');
    assert!(out[h + 4..h + 16384].iter().all(|&b| b == b'0'));
    let mut resto = out[..h - 1].to_vec();
    resto.extend_from_slice(&out[h + 16385..]);
    assert_eq!(resto, firmados);
}

#[test]
fn la_firma_pdf_es_la_del_resumen_cubierto() {
    let signed = pades::sign(PDF, &identity()).expect("firmar PDF");
    let (contenido, cms) = extract(&signed).expect("extraer");
    let esperado = signed_data_detached(sha256(&contenido).as_slice(), &identity()).unwrap();
    assert_eq!(cms, esperado);
    let otro = cades::verify(b"otro contenido", &cms).unwrap();
    assert!(!otro.digest_matches);
    assert!(otro.signature_valid);
}

#[test]
fn responder_peticiones() {
    assert_eq!(
        web::responder("{}"),
        (400, "{\"error\":\"falta el documento\"}".to_string())
    );
    let b64 = base64::engine::general_purpose::STANDARD;
    let body = format!(
        "{{\"document\":\"{}\",\"certificate\":\"{}\",\"password\":\"test\",\"name\":\"informe.pdf\"}}",
        b64.encode(PDF),
        b64.encode(P12)
    );
    assert_eq!(web::responder(&body), web::handle_sign(&body));
    assert_eq!(web::responder(&body).0, 200);
}

#[test]
fn mayor_objeto_entre_las_cabeceras() {
    assert_eq!(max_obj_number(b"1 0 obj\n12 0 obj\n3 0 obj\n"), Ok(12));
    assert_eq!(max_obj_number(b"x 0 obj 0 0 obj").err().as_deref(), Some("no se encontró ningún objeto en el PDF"));
    assert_eq!(rubrica::pades::max_obj_number(b"5 0 obj 40 0 obj 7 0 obj"), Ok(40));
}
