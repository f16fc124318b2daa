use mini_agent::sysinfo::combine_cmd;

#[test]
fn combined_command_splits_back_into_its_words() {
    for words in [
        vec!["ls"],
        vec!["ls", "-l", "/tmp"],
        vec!["a", "", "b"],
        vec![""],
    ] {
        let owned: Vec<String> = words.iter().map(|w| w.to_string()).collect();
        let joined = combine_cmd(&owned);
        let back: Vec<String> = joined.split(' ').map(String::from).collect();
        assert_eq!(back, owned);
        let total: usize = owned.iter().map(|w| w.len()).sum();
        assert_eq!(joined.len(), total + owned.len() - 1);
        assert_eq!(joined, owned.join(" "));
    }
}
