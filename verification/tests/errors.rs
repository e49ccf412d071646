use contextsend::{AdapterError, CoreError, NetworkError};

#[test]
fn adapter_error_messages() {
    assert_eq!(AdapterError::NotImplemented.message(), "尚未实现");
    assert_eq!(AdapterError::AppNotFound.message(), "未找到应用数据目录");
    assert_eq!(AdapterError::UnknownAdapter("foo".into()).message(), "无此适配器: foo");
    assert_eq!(
        AdapterError::SnippetTooShort(8).message(),
        "内容太短，至少需要 8 个字符才能可靠匹配"
    );
    assert_eq!(AdapterError::ChatBox("x".into()).message(), "ChatBox 导入失败: x");
    assert_eq!(AdapterError::Io("e".into()).message(), "文件读写失败: e");
}

#[test]
fn network_error_messages() {
    assert_eq!(NetworkError::Protocol("帧过大".into()).message(), "协议错误: 帧过大");
    assert_eq!(NetworkError::InvalidName("名称不能为空".into()).message(), "无效的设备名: 名称不能为空");
    assert_eq!(NetworkError::Mdns("m".into()).message(), "mDNS 错误: m");
}

#[test]
fn core_error_message() {
    assert_eq!(CoreError::Serde("bad".into()).message(), "序列化/反序列化失败: bad");
}
