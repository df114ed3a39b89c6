use hal::crawler::PageMetadata;
use hal::processor::chunking::{adjust_boundaries, find_split_point};
use hal::processor::llm_integration::{chunks_to_process, context_prompt, embedding_input, summary_instruction};
use hal::processor::{chunk_markdown, ChunkMetadata, ChunkOptions, ProcessorConfig, TextChunk};

fn preview_text(text: &str, max_length: usize) -> String {
    if text.len() <= max_length {
        text.to_string()
    } else {
        let mut end = max_length;
        while !text.is_char_boundary(end) {
            end -= 1;
        }
        format!("{}...", &text[..end])
    }
}

#[test]
fn test_chunk_options() {
    let options = ChunkOptions { target_chunk_size: 1000, overlap_size: 100 };
    assert_eq!(options.target_chunk_size, 1000);
    assert_eq!(options.overlap_size, 100);
}

#[test]
fn test_processor_config() {
    let config = ProcessorConfig::builder()
        .target_chunk_size(1000)
        .overlap_size(100)
        .llm_model("test-model")
        .embedding_dimensions(768)
        .build();
    assert_eq!(config.chunk_options.target_chunk_size, 1000);
    assert_eq!(config.chunk_options.overlap_size, 100);
    assert_eq!(config.llm_model, "test-model");
    assert_eq!(config.embedding_dimensions, 768);
}

#[test]
fn test_chunk_metadata() {
    let metadata = ChunkMetadata {
        source_url: "https://example.com".to_string(),
        position: 1,
        heading: Some("Test Heading".to_string()),
    };
    assert_eq!(metadata.source_url, "https://example.com");
    assert_eq!(metadata.position, 1);
    assert_eq!(metadata.heading.as_deref().unwrap(), "Test Heading");
}

#[test]
fn test_utf8_character_chunking() {
    let text = "Hello, 世界! This is a test with UTF-8 characters. 你好，世界！";
    let options = ChunkOptions { target_chunk_size: 20, overlap_size: 5 };
    let chunks = chunk_markdown(text, &options).unwrap();
    assert!(!chunks.is_empty());
    for chunk in &chunks {
        assert!(chunk.text.chars().all(|c| c.len_utf8() > 0));
        String::from_utf8(chunk.text.as_bytes().to_vec()).unwrap();
    }
    let total_chars = text.chars().count();
    let chunks_chars: usize = chunks.iter().map(|c| c.text.chars().count()).sum();
    assert!(chunks_chars >= total_chars, "All characters should be preserved in chunks");
}

#[test]
fn test_chunk_markdown_illustrative() {
    let markdown = r#"# Main Heading

This is the first paragraph with some text. It contains a few sentences
that should be kept together when chunking. The chunker should try to respect
paragraph boundaries.

## Second Level Heading

This is another paragraph with different content. It should be associated
with the second level heading.

```rust
// This is a code block
fn example_function() -> Result<(), Error> {
    println!("This code block should not be split in the middle");
    println!("It should be kept intact if possible");
    Ok(())
}
```

### Third Level Heading

- List item 1
- List item 2
- List item 3

This is a paragraph after the list. It should be treated as a separate chunk
from the list above.

#### Fourth Level Heading

This heading is level 4, so it might not be tracked as a main heading.

```python
# Another code block in a different language
def another_example():
    print("This should also be kept intact")
    return True
```

Final paragraph with some concluding text."#;

    let options = ChunkOptions { target_chunk_size: 200, overlap_size: 50 };
    let chunks = chunk_markdown(markdown, &options).unwrap();
    assert!(!chunks.is_empty(), "Should have created at least one chunk");

    println!("Created {} chunks:", chunks.len());
    for (i, chunk) in chunks.iter().enumerate() {
        println!("\nChunk {}:", i + 1);
        println!("Heading: {:?}", chunk.heading);
        println!("Position: {}", chunk.position);
        println!("Text length: {} characters", chunk.text.len());
        println!("Text preview: {}", preview_text(&chunk.text, 100));
    }

    assert_eq!(
        chunks[0].heading,
        Some("Main Heading".to_string()),
        "First chunk should have the main heading"
    );

    for (i, chunk) in chunks.iter().enumerate() {
        if chunk.text.contains("```rust") || chunk.text.contains("```python") {
            let code_start = chunk.text.find("```").unwrap();
            let remaining_text = &chunk.text[code_start..];
            if !remaining_text.contains("\n```") && i < chunks.len() - 1 {
                assert!(chunks[i + 1].text.contains("```"), "Code block should continue in next chunk");
            }
        }
    }

    for chunk in &chunks {
        let paragraphs = chunk.text.split("\n\n").collect::<Vec<_>>();
        for para in paragraphs {
            if !para.contains("```") && para.trim().len() > 10 {
                assert!(
                    para.split_whitespace().count() >= 2,
                    "Paragraphs should generally contain multiple words: {}",
                    para
                );
            }
        }
    }

    let chunks_with_headings = chunks.iter().filter(|chunk| chunk.heading.is_some()).count();
    assert!(chunks_with_headings > 0, "Some chunks should have headings");

    let mut current_heading = None;
    for chunk in &chunks {
        if chunk.heading.is_some() {
            current_heading = chunk.heading.clone();
        } else if current_heading.is_some() {
            assert_eq!(chunk.heading, current_heading, "Chunks should maintain heading association");
        }
    }
}

#[test]
fn test_chunk_markdown_boundary_preservation() {
    let markdown = r#"# Boundary Preservation Test

This is a paragraph before a code block. We want to ensure that the chunker
respects the boundaries between paragraphs and code blocks.

```rust
// This is a large code block that might exceed the chunk size
fn example_function() -> Result<(), Error> {
    // First, we do some initialization
    let mut data = Vec::new();
    for i in 0..100 {
        data.push(i);
    }

    // Then we process the data
    let processed = data.iter()
        .map(|x| x * 2)
        .filter(|x| x % 3 == 0)
        .collect::<Vec<_>>();

    // Finally, we return the result
    println!("Processed {} items", processed.len());
    Ok(())
}

// Another function in the same code block
fn another_function() {
    println!("This is another function");
    println!("It should be kept with the previous function");
    println!("Because they're in the same code block");
}
```

This is a paragraph after the code block. It should be in a different chunk
than the code block if the code block is large enough to be its own chunk.

Here's another paragraph that should be kept together with the previous one
if possible, rather than being split in the middle.

## A New Section

This section starts with a heading, which should create a new chunk boundary.
The content under this heading should be associated with this heading."#;

    let options = ChunkOptions { target_chunk_size: 30, overlap_size: 5 };
    let chunks = chunk_markdown(markdown, &options).unwrap();

    let mut in_code_block = false;
    let mut code_block_chunks = Vec::new();
    for (i, chunk) in chunks.iter().enumerate() {
        let starts_code =
            chunk.text.contains("```rust") || (chunk.text.contains("```") && !chunk.text.contains("```\n"));
        let ends_code = chunk.text.contains("\n```");
        if starts_code {
            in_code_block = true;
            code_block_chunks.push(i);
        }
        if ends_code {
            in_code_block = false;
        }
    }
    let _ = in_code_block;

    if !code_block_chunks.is_empty() && code_block_chunks.len() > 1 {
        for i in 0..code_block_chunks.len() - 1 {
            let current = code_block_chunks[i];
            let next = code_block_chunks[i + 1];
            assert_eq!(next, current + 1, "Code block chunks should be consecutive");
            let current_lines: Vec<&str> = chunks[current].text.lines().collect();
            let last_line = current_lines.last().unwrap_or(&"");
            let next_lines: Vec<&str> = chunks[next].text.lines().collect();
            let first_line = next_lines.first().unwrap_or(&"");
            assert!(
                last_line.trim().is_empty()
                    || last_line.trim().ends_with("{")
                    || last_line.trim().ends_with("}")
                    || first_line.trim().is_empty()
                    || first_line.trim().starts_with("fn ")
                    || first_line.trim().starts_with("//"),
                "Code block should be split at a reasonable boundary"
            );
        }
    }

    for chunk in &chunks {
        let paragraphs = chunk.text.split("\n\n").collect::<Vec<_>>();
        for para in paragraphs {
            if !para.contains("```") && para.trim().len() > 10 {
                let sentences = para.split(['.', '!', '?']).filter(|s| !s.trim().is_empty()).count();
                if sentences > 0 && !para.trim().starts_with("//") && !para.contains("fn ") {
                    assert!(
                        para.contains('.')
                            || para.contains('!')
                            || para.contains('?')
                            || para.trim().starts_with('#')
                            || para.contains("```")
                            || para.trim().starts_with("fn ")
                            || para.trim().starts_with("//"),
                        "Paragraphs should generally contain complete sentences"
                    );
                }
            }
        }
    }

    let heading_chunks = chunks
        .iter()
        .filter(|chunk| chunk.heading.as_deref() == Some("A New Section"))
        .collect::<Vec<_>>();
    assert!(!heading_chunks.is_empty(), "Should have a chunk with the section heading");
    let heading_chunk = heading_chunks[0];
    let heading_pos = heading_chunk.text.find("A New Section").unwrap();
    assert!(heading_pos < 50, "Heading should be near the start of its chunk");
}

#[test]
fn chunk_positions_count_from_zero() {
    let markdown = "# Title\n\nOne two three four five six seven eight nine ten.\n\nEleven twelve thirteen fourteen fifteen.";
    let options = ChunkOptions { target_chunk_size: 4, overlap_size: 1 };
    let chunks = chunk_markdown(markdown, &options).unwrap();
    assert!(chunks.len() > 1);
    for (i, c) in chunks.iter().enumerate() {
        assert_eq!(c.position, i);
    }
}

#[test]
fn chunk_of_empty_markdown_is_empty() {
    let chunks = chunk_markdown("", &ChunkOptions::default()).unwrap();
    assert!(chunks.is_empty());
}

fn words(ws: &[&str]) -> Vec<String> {
    ws.iter().map(|w| w.to_string()).collect()
}

#[test]
fn split_point_prefers_paragraph_break() {
    let text = words(&["a ", "b ", "c ", "d ", "e ", "f "]);
    assert_eq!(find_split_point(&text, 10, &[2, 4], &[], false), 4);
}

#[test]
fn split_point_ignores_breaks_below_three_tenths() {
    let text = words(&["a ", "b ", "c ", "d ", "e ", "f "]);
    // 3 * 10 / 10 = 3: a break at 2 is too early; no sentence end; cut at min(6, 10).
    assert_eq!(find_split_point(&text, 10, &[2], &[], false), 6);
}

#[test]
fn split_point_inside_code_block_waits_for_its_end() {
    let text = words(&["a ", "b ", "c ", "d ", "e ", "f "]);
    assert_eq!(find_split_point(&text, 2, &[4], &[1, 3, 5], true), 3);
}

#[test]
fn split_point_at_last_sentence_end() {
    let text = words(&["One ", "sentence. ", "Two ", "words "]);
    assert_eq!(find_split_point(&text, 3, &[], &[], false), 1);
}

#[test]
fn adjust_boundaries_drops_and_shifts() {
    let mut b = vec![1, 3, 5, 8];
    adjust_boundaries(&mut b, 3, 6);
    assert_eq!(b, vec![1, 5]);
}

#[test]
fn embedding_input_labels_each_argument() {
    assert_eq!(embedding_input("the text", "the context"), "Context: the context\nText: the text");
}

#[test]
fn context_prompt_falls_back_for_missing_metadata() {
    let metadata = PageMetadata {
        title: None,
        description: Some("A page".to_string()),
        publication_date: None,
        author: None,
        domain: "example.com".to_string(),
    };
    let p = context_prompt("https://example.com/a", "Summary.", &metadata, "Chunk body.");
    assert!(p.starts_with("Generate a concise context string for the following text."));
    assert!(p.contains("\n\nSource URL: https://example.com/a\nTitle: Unknown\nDescription: A page\nPage Summary: Summary.\nDomain: example.com\n\nText:\n"));
    assert!(p.ends_with("Text:\nChunk body."));
}

#[test]
fn summary_instruction_text() {
    assert_eq!(summary_instruction(), "Summarize the following text in a concise paragraph:\n");
}

#[test]
fn small_chunks_are_not_processed() {
    let long = "x".repeat(101);
    let exact = "y".repeat(100);
    let chunks = vec![
        TextChunk { text: long.clone(), position: 0, heading: None },
        TextChunk { text: exact, position: 1, heading: None },
        TextChunk { text: "é".repeat(51), position: 2, heading: Some("H".to_string()) },
    ];
    let kept = chunks_to_process(chunks);
    assert_eq!(kept.len(), 2);
    assert_eq!(kept[0].text, long);
    assert_eq!(kept[1].position, 2);
    assert_eq!(kept[1].heading.as_deref(), Some("H"));
}
